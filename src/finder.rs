//! Choosing the files to migrate and sharing them out among the matchers.
use vstd::prelude::*;
use vstd::arithmetic::div_mod::lemma_fundamental_div_mod_converse;
use crate::gate::{occurs_at, occurs_at_exec};
use crate::text::{chars_of, lines_of, split_lines, string_of, views_of};

verus! {

pub const KOTLIN_SUFFIX: &'static str = ".kt";

pub const JAVA_SUFFIX: &'static str = ".java";

pub const XML_SUFFIX: &'static str = ".xml";

pub const RULES_SUFFIX: &'static str = ".pro";

pub const GRADLE_SUFFIX: &'static str = ".gradle";

pub open spec fn ends_with(s: Seq<char>, suffix: Seq<char>) -> bool {
    suffix.len() <= s.len() && occurs_at(s, suffix, s.len() - suffix.len())
}

/// Source, markup, rules and build files: the only ones that can mention a
/// deprecated namespace.
pub open spec fn is_candidate(path: Seq<char>) -> bool {
    ends_with(path, KOTLIN_SUFFIX@) || ends_with(path, JAVA_SUFFIX@) || ends_with(path, XML_SUFFIX@)
        || ends_with(path, RULES_SUFFIX@) || ends_with(path, GRADLE_SUFFIX@)
}

/// The candidate paths among `paths`, in order.
pub open spec fn candidates(paths: Seq<Seq<char>>) -> Seq<Seq<char>>
    decreases paths.len(),
{
    if paths.len() == 0 {
        paths
    } else if is_candidate(paths.last()) {
        candidates(paths.drop_last()).push(paths.last())
    } else {
        candidates(paths.drop_last())
    }
}

/// The candidate paths of a listing with one path per line.
pub open spec fn listed_candidates(listing: Seq<char>) -> Seq<Seq<char>> {
    candidates(lines_of(listing))
}

/// How many of `count` paths dealt round-robin to `n` matchers go to matcher `w`.
pub open spec fn round_robin_share(count: int, n: int, w: int) -> int {
    count / n + if w < count % n { 1int } else { 0int }
}

pub open spec fn assigned_views(per: Seq<Vec<String>>) -> Seq<Seq<Seq<char>>> {
    per.map_values(|v: Vec<String>| v@.map_values(|s: String| s@))
}

/// The first `count` candidates stand where round-robin dealing to `n` matchers puts them.
pub open spec fn dealt(per: Seq<Vec<String>>, cands: Seq<Seq<char>>, count: int, n: int) -> bool {
    forall|k: int| 0 <= k < count ==> #[trigger] in_place(per, cands, k, n)
}

/// Candidate `k` stands in slot `k / n` of matcher `k % n`.
pub open spec fn in_place(per: Seq<Vec<String>>, cands: Seq<Seq<char>>, k: int, n: int) -> bool {
    k / n < per[k % n]@.len() && assigned_views(per)[k % n][k / n] == cands[k]
}

/// What the finder reports once every path has been handed out.
pub struct FinderInfo {
    pub total_files_found: usize,
    pub num_files_per_matcher: Vec<usize>,
}

/// Chooses the paths to migrate and deals them out to the matchers.
pub struct Finder;

fn ends_with_exec(s: &[char], suffix: &str) -> (r: bool)
    ensures
        r == ends_with(s@, suffix@),
{
    let suffix = chars_of(suffix);
    suffix.len() <= s.len() && occurs_at_exec(s, suffix.as_slice(), s.len() - suffix.len())
}

/// Whether `path` names a file worth migrating.
pub fn is_candidate_path(path: &[char]) -> (r: bool)
    ensures
        r == is_candidate(path@),
{
    ends_with_exec(path, KOTLIN_SUFFIX) || ends_with_exec(path, JAVA_SUFFIX) || ends_with_exec(path, XML_SUFFIX)
        || ends_with_exec(path, RULES_SUFFIX) || ends_with_exec(path, GRADLE_SUFFIX)
}

impl Finder {
    pub fn new() -> (r: Finder) {
        Finder
    }

    /// Takes a listing of paths, one per line, keeps the candidates, and deals them
    /// round-robin to `num_matchers` matchers: the `k`-th candidate goes to matcher
    /// `k % num_matchers`, after the ones dealt to it before.
    pub fn find_paths(&self, listing: &str, num_matchers: usize) -> (r: (Vec<Vec<String>>, FinderInfo))
        requires
            num_matchers > 0,
        ensures
            r.0.len() == num_matchers,
            forall|w: int| 0 <= w < num_matchers ==>
                #[trigger] assigned_views(r.0@)[w].len()
                    == round_robin_share(listed_candidates(listing@).len() as int, num_matchers as int, w),
            dealt(r.0@, listed_candidates(listing@), listed_candidates(listing@).len() as int, num_matchers as int),
            r.1.total_files_found == listed_candidates(listing@).len(),
            r.1.num_files_per_matcher.len() == num_matchers,
            forall|w: int| 0 <= w < num_matchers ==>
                #[trigger] r.1.num_files_per_matcher@[w] == r.0@[w].len(),
    {
        let n = num_matchers;
        let text = chars_of(listing);
        let (lines, _) = split_lines(text.as_slice());
        let ghost lv = views_of(lines@);
        let mut per: Vec<Vec<String>> = Vec::new();
        let mut w: usize = 0;
        while w < n
            invariant
                w <= n,
                per.len() == w,
                forall|v: int| 0 <= v < w ==> (#[trigger] per@[v])@.len() == 0,
            decreases n - w,
        {
            per.push(Vec::new());
            w = w + 1;
        }
        let mut found: usize = 0;
        let mut next: usize = 0;
        let ghost mut round: int = 0;
        let mut i: usize = 0;
        while i < lines.len()
            invariant
                i <= lines.len(),
                lv == views_of(lines@),
                n == num_matchers,
                per.len() == n,
                next < n,
                round >= 0,
                found == round * n + next,
                found == candidates(lv.subrange(0, i as int)).len(),
                found <= i,
                forall|v: int| 0 <= v < n ==> #[trigger] per@[v]@.len() == round + if v < next { 1int } else { 0int },
                dealt(per@, candidates(lv.subrange(0, i as int)), found as int, n as int),
            decreases lines.len() - i,
        {
            let ghost prefix = lv.subrange(0, i + 1);
            assert(prefix.drop_last() =~= lv.subrange(0, i as int));
            assert(prefix.last() == lines@[i as int]@);
            if is_candidate_path(lines[i].as_slice()) {
                let path = string_of(lines[i].as_slice());
                let ghost old_per = per@;
                proof {
                    lemma_fundamental_div_mod_converse(found as int, n as int, round, next as int);
                }
                let ghost f0 = found as int;
                let ghost r0 = round;
                let ghost x0 = next as int;
                per[next].push(path);
                assert(per@ == old_per.update(next as int, per@[next as int]));
                assert(candidates(prefix) == candidates(lv.subrange(0, i as int)).push(path@));
                assert(dealt(per@, candidates(prefix), found + 1, n as int)) by {
                    assert forall|k: int| 0 <= k < found + 1 implies #[trigger] in_place(per@, candidates(prefix), k, n as int) by {
                        let q = k / (n as int);
                        let m = k % (n as int);
                        if k < found {
                            assert(candidates(prefix)[k] == candidates(lv.subrange(0, i as int))[k]);
                            assert(in_place(old_per, candidates(lv.subrange(0, i as int)), k, n as int));
                            if m == next as int {
                                assert(per@[m]@ == old_per[m]@.push(path));
                                assert(per@[m]@[q] == old_per[m]@[q]);
                            } else {
                                assert(per@[m] == old_per[m]);
                            }
                        } else {
                            assert(k == found);
                            assert(m == next as int && q == round);
                            assert(per@[m]@ == old_per[m]@.push(path));
                            assert(old_per[m]@.len() == round);
                            assert(per@[m]@[q] == path);
                        }
                    }
                }
                assert forall|v: int| 0 <= v < n implies #[trigger] per@[v]@.len() == r0 + if v < x0 + 1 { 1int } else { 0int } by {
                    if v == x0 {
                        assert(per@[v]@ == old_per[v]@.push(path));
                    } else {
                        assert(per@[v] == old_per[v]);
                    }
                }
                found = found + 1;
                if next == n - 1 {
                    next = 0;
                    proof {
                        round = round + 1;
                    }
                } else {
                    next = next + 1;
                }
                assert(found == round * n + next) by (nonlinear_arith)
                    requires
                        found == f0 + 1,
                        f0 == r0 * n + x0,
                        x0 == n - 1 ==> next == 0 && round == r0 + 1,
                        x0 != n - 1 ==> next == x0 + 1 && round == r0,
                ;
            } else {
                assert(candidates(prefix) == candidates(lv.subrange(0, i as int)));
                assert forall|k: int| 0 <= k < found implies #[trigger] in_place(per@, candidates(prefix), k, n as int) by {
                    assert(in_place(per@, candidates(lv.subrange(0, i as int)), k, n as int));
                    assert(candidates(prefix)[k] == candidates(lv.subrange(0, i as int))[k]);
                }
                assert(dealt(per@, candidates(prefix), found as int, n as int));
            }
            i = i + 1;
        }
        assert(lv.subrange(0, lines.len() as int) =~= lv);
        proof {
            lemma_fundamental_div_mod_converse(found as int, n as int, round, next as int);
        }
        assert forall|w: int| 0 <= w < num_matchers implies #[trigger] assigned_views(per@)[w].len()
            == round_robin_share(found as int, n as int, w) by {
            assert(assigned_views(per@)[w].len() == per@[w]@.len());
            assert(found as int / n as int == round);
            assert(assigned_views(per@)[w] == per@[w]@.map_values(|s: String| s@));
            assert(found as int % n as int == next as int);
            assert(per@[w]@.len() == round + if w < next { 1int } else { 0int });
        }
        let mut counts: Vec<usize> = Vec::new();
        let mut v: usize = 0;
        while v < n
            invariant
                v <= n,
                per.len() == n,
                counts.len() == v,
                forall|u: int| 0 <= u < v ==> #[trigger] counts@[u] == per@[u].len(),
            decreases n - v,
        {
            counts.push(per[v].len());
            v = v + 1;
        }
        (per, FinderInfo { total_files_found: found, num_files_per_matcher: counts })
    }
}

} // verus!
