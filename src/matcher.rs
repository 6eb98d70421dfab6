//! Matching a line against the pattern tables, and scanning a whole text.
use vstd::prelude::*;
use crate::gate::{
    bounded_prefix_match, coordinate_match, has_bounded_prefix, has_coordinate, has_wildcard,
    trimmed, trimmed_len, wildcard_match,
};
use crate::mappings::{Category, PatternTables};
use crate::pattern::{regex_matches, regex_replaced};
use crate::paths::{check_artifacts, may_declare_artifacts};
use crate::text::{chars_of, copy_chars, endings_of, lines_of, split_lines, string_of, views_of};

verus! {

/// The category's gate for class references: the line is long enough and
/// mentions one of the category's namespaces after a boundary character.
pub open spec fn class_gate(cat: &Category, line: Seq<char>) -> bool {
    &&& line.len() >= cat.min_match_len
    &&& exists|p: int| 0 <= p < cat.prefixes.len() && has_bounded_prefix(line, #[trigger] cat.prefix_views()[p])
}

/// The artifact gate: the line, without leading and trailing white space, is
/// long enough, and it quotes a coordinate in one of the deprecated groups.
pub open spec fn artifact_gate(cat: &Category, line: Seq<char>) -> bool {
    &&& trimmed(line).len() >= cat.min_match_len
    &&& exists|p: int| 0 <= p < cat.prefixes.len() && has_coordinate(line, #[trigger] cat.prefix_views()[p])
}

/// The index of the first mapping at or after `k` whose pattern matches `line`.
pub open spec fn first_match_from(e: Seq<(Seq<char>, Seq<char>)>, line: Seq<char>, k: int) -> Option<int>
    decreases e.len() - k,
{
    if k < 0 || k >= e.len() {
        None
    } else if regex_matches(e[k].0, line) {
        Some(k)
    } else {
        first_match_from(e, line, k + 1)
    }
}

pub open spec fn first_match(e: Seq<(Seq<char>, Seq<char>)>, line: Seq<char>) -> Option<int> {
    first_match_from(e, line, 0)
}

/// What scanning one category does to a line whose gate passed: the line, whether
/// it was rewritten, and whether it is a wildcard import.
pub open spec fn category_outcome(cat: &Category, line: Seq<char>) -> (Seq<char>, bool, bool) {
    if has_wildcard(line) {
        (line, false, true)
    } else {
        match first_match(cat.entries(), line) {
            Some(i) => (regex_replaced(cat.entries()[i].0, line, cat.entries()[i].1), true, false),
            None => (line, false, false),
        }
    }
}

/// What the line matcher does to a line: the first category (support, then
/// architecture, then data binding) whose gate passes is scanned, and only that one.
pub open spec fn line_outcome(t: &PatternTables, line: Seq<char>) -> (Seq<char>, bool, bool) {
    if class_gate(&t.support, line) {
        category_outcome(&t.support, line)
    } else if class_gate(&t.arch, line) {
        category_outcome(&t.arch, line)
    } else if class_gate(&t.databinding, line) {
        category_outcome(&t.databinding, line)
    } else {
        (line, false, false)
    }
}

/// The artifact mapping that a line mentions, if its gate passes.
pub open spec fn artifact_outcome(t: &PatternTables, line: Seq<char>) -> Option<int> {
    if artifact_gate(&t.artifacts, line) {
        first_match(t.artifacts.entries(), line)
    } else {
        None
    }
}

fn any_bounded_prefix(cat: &Category, line: &[char]) -> (r: bool)
    ensures
        r == exists|p: int| 0 <= p < cat.prefixes.len() && has_bounded_prefix(line@, #[trigger] cat.prefix_views()[p]),
{
    let mut p: usize = 0;
    while p < cat.prefixes.len()
        invariant
            p <= cat.prefixes.len(),
            forall|q: int| 0 <= q < p ==> !has_bounded_prefix(line@, #[trigger] cat.prefix_views()[q]),
        decreases cat.prefixes.len() - p,
    {
        if bounded_prefix_match(line, cat.prefixes[p].as_slice()) {
            assert(cat.prefix_views()[p as int] == cat.prefixes@[p as int]@);
            return true;
        }
        assert(cat.prefix_views()[p as int] == cat.prefixes@[p as int]@);
        p = p + 1;
    }
    false
}

fn any_coordinate(cat: &Category, line: &[char]) -> (r: bool)
    ensures
        r == exists|p: int| 0 <= p < cat.prefixes.len() && has_coordinate(line@, #[trigger] cat.prefix_views()[p]),
{
    let mut p: usize = 0;
    while p < cat.prefixes.len()
        invariant
            p <= cat.prefixes.len(),
            forall|q: int| 0 <= q < p ==> !has_coordinate(line@, #[trigger] cat.prefix_views()[q]),
        decreases cat.prefixes.len() - p,
    {
        if coordinate_match(line, cat.prefixes[p].as_slice()) {
            assert(cat.prefix_views()[p as int] == cat.prefixes@[p as int]@);
            return true;
        }
        assert(cat.prefix_views()[p as int] == cat.prefixes@[p as int]@);
        p = p + 1;
    }
    false
}

impl Category {
    /// Whether `line` mentions one of the category's namespaces right after a
    /// boundary character, whatever its length.
    pub fn is_boundary_match(&self, line: &str) -> (r: bool)
        ensures
            r == exists|p: int| 0 <= p < self.prefixes.len() && has_bounded_prefix(line@, #[trigger] self.prefix_views()[p]),
    {
        let chars = chars_of(line);
        any_bounded_prefix(self, chars.as_slice())
    }

    /// Whether `line` quotes a coordinate in one of the category's groups,
    /// whatever its length.
    pub fn is_coordinate_match(&self, line: &str) -> (r: bool)
        ensures
            r == exists|p: int| 0 <= p < self.prefixes.len() && has_coordinate(line@, #[trigger] self.prefix_views()[p]),
    {
        let chars = chars_of(line);
        any_coordinate(self, chars.as_slice())
    }
}

/// Whether `line` holds a `.*`, as a wildcard import or a glob directive does.
pub fn is_wildcard_import(line: &str) -> (r: bool)
    ensures
        r == has_wildcard(line@),
{
    let chars = chars_of(line);
    wildcard_match(chars.as_slice())
}

/// Whether the category's gate lets `line` through.
pub fn passes_class_gate(cat: &Category, line: &[char]) -> (r: bool)
    ensures
        r == class_gate(cat, line@),
{
    line.len() >= cat.min_match_len && any_bounded_prefix(cat, line)
}

/// The first mapping of `cat` whose pattern matches `line`.
fn first_matching(cat: &Category, line: &str) -> (r: Option<usize>)
    ensures
        r matches Some(i) ==> first_match(cat.entries(), line@) == Some(i as int) && i < cat.mappings.len(),
        r is None ==> first_match(cat.entries(), line@) is None,
{
    let mut k: usize = 0;
    while k < cat.mappings.len()
        invariant
            k <= cat.mappings.len(),
            first_match(cat.entries(), line@) == first_match_from(cat.entries(), line@, k as int),
        decreases cat.mappings.len() - k,
    {
        assert(cat.entries()[k as int] == cat.mappings@[k as int]@);
        if cat.mappings[k].pattern.is_match(line) {
            return Some(k);
        }
        k = k + 1;
    }
    None
}

/// Scans one category for a line whose gate passed: a wildcard import is left
/// alone and reported; otherwise the first matching mapping rewrites the line.
pub fn match_line_with_patterns(line: &[char], cat: &Category) -> (r: (Vec<char>, bool, bool))
    ensures
        (r.0@, r.1, r.2) == category_outcome(cat, line@),
{
    if wildcard_match(line) {
        return (copy_chars(line), false, true);
    }
    let text = string_of(line);
    match first_matching(cat, text.as_str()) {
        Some(i) => {
            let mapping = &cat.mappings[i];
            assert(cat.entries()[i as int] == mapping@);
            let replaced = mapping.pattern.replace(text.as_str(), mapping.replacement.as_str());
            (chars_of(replaced.as_str()), true, false)
        },
        None => (copy_chars(line), false, false),
    }
}

impl PatternTables {
    fn find_match_chars(&self, line: &[char]) -> (r: (Vec<char>, bool, bool))
        ensures
            (r.0@, r.1, r.2) == line_outcome(self, line@),
    {
        if passes_class_gate(&self.support, line) {
            match_line_with_patterns(line, &self.support)
        } else if passes_class_gate(&self.arch, line) {
            match_line_with_patterns(line, &self.arch)
        } else if passes_class_gate(&self.databinding, line) {
            match_line_with_patterns(line, &self.databinding)
        } else {
            (copy_chars(line), false, false)
        }
    }

    /// Matches one line: the line to write (rewritten or not), whether it was
    /// rewritten, and whether it is a wildcard import that cannot be rewritten.
    pub fn find_match(&self, line: &str) -> (r: (String, bool, bool))
        ensures
            (r.0@, r.1, r.2) == line_outcome(self, line@),
    {
        let chars = chars_of(line);
        let (out, changed, wildcard) = self.find_match_chars(chars.as_slice());
        (string_of(out.as_slice()), changed, wildcard)
    }

    fn find_artifact_chars(&self, line: &[char]) -> (r: Option<usize>)
        ensures
            r matches Some(i) ==> artifact_outcome(self, line@) == Some(i as int) && i < self.artifacts.mappings.len(),
            r is None ==> artifact_outcome(self, line@) is None,
    {
        if trimmed_len(line) >= self.artifacts.min_match_len && any_coordinate(&self.artifacts, line) {
            let text = string_of(line);
            first_matching(&self.artifacts, text.as_str())
        } else {
            None
        }
    }

    /// The index, in `artifacts.mappings`, of the artifact mapping that the line
    /// mentions.
    pub fn find_artifact_match(&self, line: &str) -> (r: Option<usize>)
        ensures
            r matches Some(i) ==> artifact_outcome(self, line@) == Some(i as int) && i < self.artifacts.mappings.len(),
            r is None ==> artifact_outcome(self, line@) is None,
    {
        let chars = chars_of(line);
        self.find_artifact_chars(chars.as_slice())
    }
}

/// What scanning a text line by line has produced so far.
pub struct ScanModel {
    /// Every line, rewritten or not, each followed by its own ending.
    pub output: Seq<char>,
    /// How many lines were rewritten.
    pub replacements: nat,
    /// The artifact mappings found, each once, in the order first found.
    pub artifacts: Seq<int>,
    /// The wildcard import lines, verbatim, in order.
    pub wildcards: Seq<Seq<char>>,
}

/// Where the artifact table matched, as a spec index.
pub open spec fn index_of_match(artifact: Option<usize>) -> Option<int> {
    match artifact {
        Some(k) => Some(k as int),
        None => None,
    }
}

/// One line more, written back as `out` followed by the line's own `ending`.
/// A line that was rewritten counts as a replacement; one that
/// was not but is a wildcard import is recorded as such; where artifacts are
/// looked for, the artifact mapping found on any other line is recorded, once.
pub open spec fn scan_step(
    prev: ScanModel,
    line: Seq<char>,
    ending: Seq<char>,
    outcome: (Seq<char>, bool, bool),
    check_artifacts: bool,
    artifact: Option<int>,
) -> ScanModel {
    let (out, replaced, wildcard) = outcome;
    ScanModel {
        output: prev.output + out + ending,
        replacements: prev.replacements + if replaced { 1nat } else { 0nat },
        artifacts: if !replaced && !wildcard && check_artifacts {
            match artifact {
                Some(k) => if prev.artifacts.contains(k) {
                    prev.artifacts
                } else {
                    prev.artifacts.push(k)
                },
                None => prev.artifacts,
            }
        } else {
            prev.artifacts
        },
        wildcards: if !replaced && wildcard {
            prev.wildcards.push(line)
        } else {
            prev.wildcards
        },
    }
}

pub open spec fn empty_scan() -> ScanModel {
    ScanModel { output: Seq::empty(), replacements: 0, artifacts: Seq::empty(), wildcards: Seq::empty() }
}

/// Scanning `lines` in order with the line and artifact matchers; `endings`
/// holds the ending of each line.
pub open spec fn scan_lines(t: &PatternTables, lines: Seq<Seq<char>>, endings: Seq<Seq<char>>, check_artifacts: bool) -> ScanModel
    decreases lines.len(),
{
    if lines.len() == 0 {
        empty_scan()
    } else {
        let line = lines.last();
        scan_step(
            scan_lines(t, lines.drop_last(), endings.drop_last(), check_artifacts),
            line,
            endings.last(),
            line_outcome(t, line),
            check_artifacts,
            artifact_outcome(t, line),
        )
    }
}

/// Scanning the lines of the file at `path` whose contents are `contents`.
pub open spec fn scan_file(t: &PatternTables, path: Seq<char>, contents: Seq<char>) -> ScanModel {
    scan_lines(t, lines_of(contents), endings_of(contents), may_declare_artifacts(path))
}

/// What became of one file.
pub struct MatchInfo {
    pub matcher_id: usize,
    pub path: String,
    /// How many lines were rewritten.
    pub matches_found: usize,
    /// Indices into the artifact table, each once, in the order first found.
    pub artifacts_found: Vec<usize>,
    /// Wildcard import lines, verbatim.
    pub matched_star_imports: Vec<String>,
}

pub open spec fn index_views(v: Seq<usize>) -> Seq<int> {
    v.map_values(|k: usize| k as int)
}

pub open spec fn string_views(v: Seq<String>) -> Seq<Seq<char>> {
    v.map_values(|s: String| s@)
}

fn contains_index(v: &Vec<usize>, k: usize) -> (r: bool)
    ensures
        r == index_views(v@).contains(k as int),
{
    let mut i: usize = 0;
    while i < v.len()
        invariant
            i <= v.len(),
            forall|m: int| 0 <= m < i ==> v@[m] != k,
        decreases v.len() - i,
    {
        if v[i] == k {
            assert(index_views(v@)[i as int] == k as int);
            return true;
        }
        i = i + 1;
    }
    assert forall|m: int| 0 <= m < index_views(v@).len() implies index_views(v@)[m] != k as int by {
        assert(v@[m] != k);
    }
    false
}

/// The running results of a scan: the text to write, and what was found.
pub struct ScanState {
    pub output: Vec<char>,
    pub replacements: usize,
    pub artifacts: Vec<usize>,
    pub star_imports: Vec<String>,
}

impl ScanState {
    pub open spec fn model(&self) -> ScanModel {
        ScanModel {
            output: self.output@,
            replacements: self.replacements as nat,
            artifacts: index_views(self.artifacts@),
            wildcards: string_views(self.star_imports@),
        }
    }

    pub fn new() -> (r: ScanState)
        ensures
            r.model() == empty_scan(),
    {
        let r = ScanState { output: Vec::new(), replacements: 0, artifacts: Vec::new(), star_imports: Vec::new() };
        assert(r.model().artifacts =~= Seq::<int>::empty());
        assert(r.model().wildcards =~= Seq::<Seq<char>>::empty());
        r
    }

    /// Records one line, to be written back followed by its own `ending`: `out`,
    /// `replaced` and `wildcard` are what the line
    /// matcher made of it, and `artifact` what the artifact matcher found on it
    /// (looked at only where the line was neither rewritten nor a wildcard import
    /// and artifacts are looked for).
    pub fn record_line(
        &mut self,
        line: &[char],
        ending: &[char],
        out: Vec<char>,
        replaced: bool,
        wildcard: bool,
        check_artifacts: bool,
        artifact: Option<usize>,
    )
        requires
            replaced ==> old(self).replacements < usize::MAX,
        ensures
            final(self).model() == scan_step(old(self).model(), line@, ending@, (out@, replaced, wildcard), check_artifacts, index_of_match(artifact)),
    {
        let mut out = out;
        let ghost out_view = out@;
        if replaced {
            self.replacements = self.replacements + 1;
        } else if wildcard {
            let ghost before = string_views(self.star_imports@);
            let s = string_of(line);
            self.star_imports.push(s);
            assert(string_views(self.star_imports@) =~= before.push(line@));
        } else if check_artifacts {
            match artifact {
                Some(k) => {
                    if !contains_index(&self.artifacts, k) {
                        let ghost before = index_views(self.artifacts@);
                        self.artifacts.push(k);
                        assert(index_views(self.artifacts@) =~= before.push(k as int));
                    }
                },
                None => {},
            }
        }
        let mut end = copy_chars(ending);
        self.output.append(&mut out);
        self.output.append(&mut end);
        assert(self.output@ =~= old(self).output@ + out_view + ending@);
    }
}

impl PatternTables {
    /// Scans the contents of one file: every line goes through the line matcher,
    /// and, where the path may declare artifacts, lines that were neither rewritten
    /// nor wildcard imports go through the artifact matcher. Each line is written
    /// back followed by its own ending (`\r\n`, `\n` or none). The new contents are
    /// returned if and only if at least one line was rewritten, so a file without a
    /// replacement is never written.
    pub fn search_and_replace_text(&self, matcher_id: usize, path: &str, contents: &str) -> (r: (MatchInfo, Option<String>))
        ensures
            r.0.matcher_id == matcher_id,
            r.0.path@ == path@,
            r.0.matches_found == scan_file(self, path@, contents@).replacements,
            index_views(r.0.artifacts_found@) == scan_file(self, path@, contents@).artifacts,
            string_views(r.0.matched_star_imports@) == scan_file(self, path@, contents@).wildcards,
            r.1 is Some <==> scan_file(self, path@, contents@).replacements > 0,
            r.1 matches Some(out) ==> out@ == scan_file(self, path@, contents@).output,
    {
        let check_artifact = check_artifacts(path);
        let text = chars_of(contents);
        let (lines, endings) = split_lines(text.as_slice());
        let ghost lv = views_of(lines@);
        let ghost ev = views_of(endings@);
        assert(lv.len() == ev.len());
        let mut state = ScanState::new();
        let mut i: usize = 0;
        while i < lines.len()
            invariant
                i <= lines.len(),
                lines.len() == endings.len(),
                lv == views_of(lines@),
                ev == views_of(endings@),
                lv == lines_of(contents@),
                ev == endings_of(contents@),
                check_artifact == may_declare_artifacts(path@),
                state.replacements <= i,
                state.model() == scan_lines(self, lv.subrange(0, i as int), ev.subrange(0, i as int), check_artifact),
            decreases lines.len() - i,
        {
            let ghost prefix = lv.subrange(0, i + 1);
            assert(prefix.drop_last() =~= lv.subrange(0, i as int));
            assert(prefix.last() == lines@[i as int]@);
            assert(ev.subrange(0, i + 1).drop_last() =~= ev.subrange(0, i as int));
            assert(ev.subrange(0, i + 1).last() == endings@[i as int]@);
            let line = lines[i].as_slice();
            let (line_to_write, found_match, found_star_import) = self.find_match_chars(line);
            let artifact = if !found_match && !found_star_import && check_artifact {
                self.find_artifact_chars(line)
            } else {
                None
            };
            state.record_line(line, endings[i].as_slice(), line_to_write, found_match, found_star_import, check_artifact, artifact);
            i = i + 1;
        }
        assert(lv.subrange(0, lines.len() as int) =~= lv);
        assert(ev.subrange(0, lines.len() as int) =~= ev);
        let ScanState { output, replacements, artifacts, star_imports } = state;
        let info = MatchInfo {
            matcher_id,
            path: String::from_str(path),
            matches_found: replacements,
            artifacts_found: artifacts,
            matched_star_imports: star_imports,
        };
        if replacements > 0 {
            (info, Some(string_of(output.as_slice())))
        } else {
            (info, None)
        }
    }
}

} // verus!
