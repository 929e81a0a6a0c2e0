//! Ratings of Hub files against the memory of the cluster.
use vstd::prelude::*;

use crate::hub::by_size::{lemma_sorted_by_size, nondecreasing, sort_by_size, sorted_by_size, SizedEntry};
use crate::hub::huggingface::HubFile;
use crate::models::{estimate_memory, estimate_spec};

verus! {

/// How well a model file fits the memory of the cluster.
#[derive(Debug, Clone, Copy, PartialEq, Eq, Structural)]
pub enum FitRating {
    Recommended,
    Fits,
    Tight,
    TooLarge,
}

impl FitRating {
    pub fn label(self) -> (label: &'static str)
        ensures
            self == FitRating::Recommended ==> label@ == "★ Recommended"@,
            self == FitRating::Fits ==> label@ == "Fits"@,
            self == FitRating::Tight ==> label@ == "Tight"@,
            self == FitRating::TooLarge ==> label@ == "Too large"@,
    {
        match self {
            FitRating::Recommended => "★ Recommended",
            FitRating::Fits => "Fits",
            FitRating::Tight => "Tight",
            FitRating::TooLarge => "Too large",
        }
    }
}

/// A Hub file with the memory it needs and its rating.
#[derive(Debug, PartialEq)]
pub struct RankedFile {
    pub file: HubFile,
    pub estimated_memory_bytes: u64,
    pub rating: FitRating,
}

impl Clone for RankedFile {
    fn clone(&self) -> (copy: Self)
        ensures
            copy == *self,
    {
        RankedFile {
            file: self.file.clone(),
            estimated_memory_bytes: self.estimated_memory_bytes,
            rating: self.rating,
        }
    }
}

impl SizedEntry for RankedFile {
    open spec fn size_spec(&self) -> u64 {
        self.file.size_bytes
    }

    fn size(&self) -> (s: u64) {
        self.file.size_bytes
    }
}

/// Each file with its memory estimate and the rating given for it.
pub open spec fn rated(files: Seq<HubFile>, ratings: Seq<FitRating>) -> Seq<RankedFile> {
    Seq::new(
        files.len(),
        |i: int|
            RankedFile {
                file: files[i],
                estimated_memory_bytes: estimate_spec(files[i].size_bytes) as u64,
                rating: ratings[i],
            },
    )
}

/// The largest entry rated `Fits`; the last one among equally large ones.
pub open spec fn best_fit(s: Seq<RankedFile>) -> Option<int>
    decreases s.len(),
{
    if s.len() == 0 {
        None
    } else {
        let rest = best_fit(s.drop_last());
        if s.last().rating == FitRating::Fits && (rest is None || s[rest.unwrap()].file.size_bytes
            <= s.last().file.size_bytes) {
            Some(s.len() - 1)
        } else {
            rest
        }
    }
}

/// The best fit, if any, rated `Recommended` instead.
pub open spec fn promoted(s: Seq<RankedFile>) -> Seq<RankedFile> {
    match best_fit(s) {
        Some(k) => s.update(
            k,
            RankedFile {
                file: s[k].file,
                estimated_memory_bytes: s[k].estimated_memory_bytes,
                rating: FitRating::Recommended,
            },
        ),
        None => s,
    }
}

pub proof fn lemma_best_fit(s: Seq<RankedFile>)
    ensures
        best_fit(s) is Some <==> exists|i: int| 0 <= i < s.len() && #[trigger] s[i].rating == FitRating::Fits,
        best_fit(s) matches Some(k) ==> 0 <= k < s.len() && s[k].rating == FitRating::Fits && forall|i: int|
            0 <= i < s.len() && #[trigger] s[i].rating == FitRating::Fits ==> s[i].file.size_bytes
                <= s[k].file.size_bytes,
    decreases s.len(),
{
    if s.len() > 0 {
        let t = s.drop_last();
        lemma_best_fit(t);
        assert forall|i: int| 0 <= i < t.len() implies #[trigger] t[i] == s[i] by {}
        let last = s.len() - 1;
        if best_fit(s) == Some(last) {
            assert forall|i: int| 0 <= i < s.len() && #[trigger] s[i].rating == FitRating::Fits implies s[i].file.size_bytes
                <= s[last].file.size_bytes by {
                if i < last {
                    assert(t[i].rating == FitRating::Fits);
                }
            }
        } else if best_fit(s) is Some {
            let k = best_fit(t).unwrap();
            assert forall|i: int| 0 <= i < s.len() && #[trigger] s[i].rating == FitRating::Fits implies s[i].file.size_bytes
                <= s[k].file.size_bytes by {
                if i < last {
                    assert(t[i].rating == FitRating::Fits);
                }
            }
        }
        if best_fit(s) is None {
            assert(!(s.last().rating == FitRating::Fits));
            assert forall|i: int| 0 <= i < s.len() implies #[trigger] s[i].rating != FitRating::Fits by {
                if i < t.len() {
                    assert(t[i] == s[i]);
                }
            }
        }
    }
}

/// Rates each file, recommends the largest file rated `Fits` (the size of
/// a file stands for the precision it keeps), and orders the files by size.
pub fn rank_rated(files: Vec<HubFile>, ratings: &Vec<FitRating>) -> (ranked: Vec<RankedFile>)
    requires
        files@.len() == ratings@.len(),
    ensures
        ranked@ == sorted_by_size(promoted(rated(files@, ratings@))),
{
    let ghost all = files@;
    let mut rest = files;
    let mut ranked: Vec<RankedFile> = Vec::new();
    while rest.len() > 0
        invariant
            rest.len() <= all.len(),
            all.len() == ratings@.len(),
            rest@ == all.skip(all.len() - rest.len()),
            ranked@ == rated(all, ratings@).take(all.len() - rest.len()),
        decreases rest.len(),
    {
        let k = ratings.len() - rest.len();
        let file = rest.remove(0);
        proof {
            assert(file == all[k as int]);
            assert(rest@ =~= all.skip(k + 1));
        }
        let estimated = estimate_memory(file.size_bytes);
        ranked.push(RankedFile { file, estimated_memory_bytes: estimated, rating: ratings[k] });
        proof {
            assert(ranked@ =~= rated(all, ratings@).take(k + 1));
        }
    }
    proof {
        assert(rated(all, ratings@).take(all.len() as int) =~= rated(all, ratings@));
    }
    let ghost listed = ranked@;
    let mut best: Option<usize> = None;
    for i in 0..ranked.len()
        invariant
            ranked@ == listed,
            best == match best_fit(listed.take(i as int)) {
                Some(k) => Some(k as usize),
                None => None::<usize>,
            },
            best_fit(listed.take(i as int)) matches Some(k) ==> 0 <= k < i,
    {
        proof {
            lemma_best_fit(listed.take(i as int));
            assert(listed.take(i + 1).drop_last() =~= listed.take(i as int));
            assert(listed.take(i + 1).last() == listed[i as int]);
        }
        let better = match best {
            None => true,
            Some(k) => ranked[k].file.size_bytes <= ranked[i].file.size_bytes,
        };
        if ranked[i].rating == FitRating::Fits && better {
            best = Some(i);
        }
    }
    proof {
        assert(listed.take(listed.len() as int) =~= listed);
    }
    match best {
        Some(k) => {
            ranked[k].rating = FitRating::Recommended;
            proof {
                assert(ranked@ =~= promoted(listed));
            }
        },
        None => {},
    }
    sort_by_size(ranked)
}

/// Files whose rating depends on nothing but the estimate: of the files
/// offered, the one recommended is rated `Fits` and no file rated `Fits`
/// is larger; a file is recommended exactly when some file fits; the list
/// keeps every file and is ordered by size.
pub proof fn lemma_recommends_largest_fit(files: Seq<HubFile>, ratings: Seq<FitRating>)
    requires
        files.len() == ratings.len(),
        forall|i: int| 0 <= i < ratings.len() ==> #[trigger] ratings[i] != FitRating::Recommended,
    ensures
        ({
            let out = sorted_by_size(promoted(rated(files, ratings)));
            &&& nondecreasing(out)
            &&& out.len() == files.len()
            &&& (exists|j: int| 0 <= j < out.len() && #[trigger] out[j].rating == FitRating::Recommended) <==> (
            exists|i: int| 0 <= i < ratings.len() && #[trigger] ratings[i] == FitRating::Fits)
            &&& forall|j: int, m: int|
                0 <= j < out.len() && 0 <= m < out.len() && #[trigger] out[j].rating == FitRating::Recommended
                    && #[trigger] out[m].rating == FitRating::Fits ==> out[m].file.size_bytes
                    <= out[j].file.size_bytes
            &&& forall|j: int, m: int|
                0 <= j < out.len() && 0 <= m < out.len() && #[trigger] out[j].rating == FitRating::Recommended
                    && #[trigger] out[m].rating == FitRating::Recommended ==> out[j] == out[m]
        }),
{
    broadcast use vstd::seq_lib::group_to_multiset_ensures;

    let r = rated(files, ratings);
    let p = promoted(r);
    let out = sorted_by_size(p);
    lemma_best_fit(r);
    lemma_sorted_by_size(p);
    assert forall|i: int| 0 <= i < r.len() implies #[trigger] r[i].rating == ratings[i] by {}
    // Every value of `out` is a value of `p`, and conversely.
    assert forall|j: int| 0 <= j < out.len() implies exists|i: int| 0 <= i < p.len() && p[i] == #[trigger] out[j] by {
        assert(out.contains(out[j]));
        assert(out.to_multiset().count(out[j]) > 0);
        assert(p.contains(out[j]));
    }
    // In `p`, only the best fit is recommended.
    assert forall|i: int| 0 <= i < p.len() && #[trigger] p[i].rating == FitRating::Recommended implies best_fit(r)
        == Some(i) by {
        if best_fit(r) != Some(i) {
            assert(p[i] == r[i]);
        }
    }
    if exists|i: int| 0 <= i < ratings.len() && #[trigger] ratings[i] == FitRating::Fits {
        let i = choose|i: int| 0 <= i < ratings.len() && #[trigger] ratings[i] == FitRating::Fits;
        assert(r[i].rating == FitRating::Fits);
        let k = best_fit(r).unwrap();
        assert(p[k].rating == FitRating::Recommended);
        assert(p.contains(p[k]));
        assert(p.to_multiset().count(p[k]) > 0);
        assert(out.contains(p[k]));
        let j = choose|j: int| 0 <= j < out.len() && out[j] == p[k];
        assert(out[j].rating == FitRating::Recommended);
    }
    assert forall|j: int, m: int|
        0 <= j < out.len() && 0 <= m < out.len() && #[trigger] out[j].rating == FitRating::Recommended
            && #[trigger] out[m].rating == FitRating::Fits implies out[m].file.size_bytes
        <= out[j].file.size_bytes by {
        let a = choose|i: int| 0 <= i < p.len() && p[i] == out[j];
        let b = choose|i: int| 0 <= i < p.len() && p[i] == out[m];
        assert(best_fit(r) == Some(a));
        assert(p[b] == r[b]);
        assert(r[b].rating == FitRating::Fits);
    }
    assert forall|j: int, m: int|
        0 <= j < out.len() && 0 <= m < out.len() && #[trigger] out[j].rating == FitRating::Recommended
            && #[trigger] out[m].rating == FitRating::Recommended implies out[j] == out[m] by {
        let a = choose|i: int| 0 <= i < p.len() && p[i] == out[j];
        let b = choose|i: int| 0 <= i < p.len() && p[i] == out[m];
        assert(best_fit(r) == Some(a));
        assert(best_fit(r) == Some(b));
    }
    assert(out.len() == files.len()) by {
        assert(out.to_multiset().len() == out.len());
        assert(p.to_multiset().len() == p.len());
        assert(p.len() == r.len());
    }
    if exists|j: int| 0 <= j < out.len() && #[trigger] out[j].rating == FitRating::Recommended {
        let j = choose|j: int| 0 <= j < out.len() && #[trigger] out[j].rating == FitRating::Recommended;
        let a = choose|i: int| 0 <= i < p.len() && p[i] == out[j];
        assert(best_fit(r) == Some(a));
        let k = a;
        assert(r[k].rating == FitRating::Fits);
        assert(ratings[k] == FitRating::Fits);
    }
}

} // verus!
