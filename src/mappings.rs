//! Pattern tables: the mappings of each category, loaded from CSV text and
//! ordered longest pattern first, with the length bound used as a cheap gate.
use vstd::prelude::*;
use crate::pattern::{Pattern, regex_compiles};
use crate::text::chars_of;
use crate::data::{ARCH_MAPPING_CSV, ARTIFACT_MAPPING_CSV, DATABIND_MAPPING_CSV, SUPPORT_MAPPING_CSV};

verus! {

#[verifier::external_type_specification]
#[verifier::external_body]
pub struct ExCsvError(csv::Error);

/// The records of `text` read as CSV (every line a record, the first one
/// included), or `None` where the text is not well-formed CSV.
pub uninterp spec fn csv_parse(text: Seq<char>) -> Option<Seq<Seq<Seq<char>>>>;

pub open spec fn rows_view(rows: Seq<Vec<String>>) -> Seq<Seq<Seq<char>>> {
    rows.map_values(|row: Vec<String>| row@.map_values(|f: String| f@))
}

/// Relies on `csv::Reader::records` over a reader built without a header row:
/// every record of the text, each as its fields, or the reader's error.
#[verifier::external_body]
fn csv_records(text: &str) -> (r: Result<Vec<Vec<String>>, csv::Error>)
    ensures
        match r {
            Ok(rows) => csv_parse(text@) == Some(rows_view(rows@)),
            Err(_) => csv_parse(text@) is None,
        },
{
    let mut reader = csv::ReaderBuilder::new().has_headers(false).from_reader(text.as_bytes());
    let mut rows = Vec::new();
    for record in reader.records() {
        rows.push(record?.iter().map(|f| f.to_string()).collect());
    }
    Ok(rows)
}

/// A deprecated symbol and what replaces it.
pub struct Mapping {
    pub pattern: Pattern,
    pub replacement: String,
}

/// A deprecated build coordinate and the coordinate to use instead.
pub type ArtifactMapping = Mapping;

impl View for Mapping {
    type V = (Seq<char>, Seq<char>);

    open spec fn view(&self) -> (Seq<char>, Seq<char>) {
        (self.pattern@, self.replacement@)
    }
}

pub open spec fn entries_view(ms: Seq<Mapping>) -> Seq<(Seq<char>, Seq<char>)> {
    ms.map_values(|m: Mapping| m@)
}

/// No pattern is longer than one before it.
pub open spec fn sorted_longest_first(e: Seq<(Seq<char>, Seq<char>)>) -> bool {
    forall|i: int, j: int| 0 <= i < j < e.len() ==> #[trigger] e[j].0.len() <= #[trigger] e[i].0.len()
}

/// No two entries share a pattern.
pub open spec fn distinct_patterns(e: Seq<(Seq<char>, Seq<char>)>) -> bool {
    forall|i: int, j: int| 0 <= i < e.len() && 0 <= j < e.len() && i != j ==> #[trigger] e[i].0 != #[trigger] e[j].0
}

/// The mappings that share a namespace, with the cheap tests that guard a scan of them.
pub struct Category {
    /// Longest pattern first.
    pub mappings: Vec<Mapping>,
    /// The length of the shortest pattern.
    pub min_match_len: usize,
    /// The namespaces (or coordinate groups) that a line must mention.
    pub prefixes: Vec<Vec<char>>,
}

impl Category {
    pub open spec fn entries(&self) -> Seq<(Seq<char>, Seq<char>)> {
        entries_view(self.mappings@)
    }

    pub open spec fn prefix_views(&self) -> Seq<Seq<char>> {
        self.prefixes@.map_values(|p: Vec<char>| p@)
    }

    pub open spec fn wf(&self) -> bool {
        &&& self.mappings.len() > 0
        &&& sorted_longest_first(self.entries())
        &&& distinct_patterns(self.entries())
        &&& self.min_match_len == self.entries().last().0.len()
    }
}

/// Why a table could not be loaded.
#[derive(Debug, PartialEq, Eq, Structural)]
pub enum LoadError {
    /// The text is not well-formed CSV.
    Csv,
    /// The header lacks one of the two columns.
    MissingColumn,
    /// The table holds a header and nothing else.
    NoMappings,
    /// This record (the header is record 0) lacks a field.
    ShortRecord { record: usize },
    /// This record repeats the pattern of an earlier record.
    DuplicatePattern { record: usize },
    /// This record's pattern is not a valid regular expression.
    BadPattern { record: usize },
}

/// The first column of `header` named `name`, searching from `j`.
pub open spec fn column_from(header: Seq<Seq<char>>, name: Seq<char>, j: int) -> Option<int>
    decreases header.len() - j,
{
    if j < 0 || j >= header.len() {
        None
    } else if header[j] == name {
        Some(j)
    } else {
        column_from(header, name, j + 1)
    }
}

pub open spec fn column_index(header: Seq<Seq<char>>, name: Seq<char>) -> Option<int> {
    column_from(header, name, 0)
}

/// What is wrong with record `k`, given that the records before it are sound.
pub open spec fn record_error(rows: Seq<Seq<Seq<char>>>, pc: int, rc: int, k: int) -> Option<LoadError> {
    let row = rows[k];
    if pc >= row.len() || rc >= row.len() {
        Some(LoadError::ShortRecord { record: k as usize })
    } else if exists|j: int| 1 <= j < k && #[trigger] rows[j][pc] == row[pc] {
        Some(LoadError::DuplicatePattern { record: k as usize })
    } else if !regex_compiles(row[pc]) {
        Some(LoadError::BadPattern { record: k as usize })
    } else {
        None
    }
}

/// The error of the first bad record at or after `k`.
pub open spec fn first_record_error(rows: Seq<Seq<Seq<char>>>, pc: int, rc: int, k: int) -> Option<LoadError>
    decreases rows.len() - k,
{
    if k < 0 || k >= rows.len() {
        None
    } else if record_error(rows, pc, rc, k) is Some {
        record_error(rows, pc, rc, k)
    } else {
        first_record_error(rows, pc, rc, k + 1)
    }
}

/// Why loading `text` with these column names fails, if it does.
pub open spec fn load_error(text: Seq<char>, pattern_col: Seq<char>, replacement_col: Seq<char>) -> Option<LoadError> {
    match csv_parse(text) {
        None => Some(LoadError::Csv),
        Some(rows) => if rows.len() == 0 {
            Some(LoadError::MissingColumn)
        } else {
            match (column_index(rows[0], pattern_col), column_index(rows[0], replacement_col)) {
                (Some(pc), Some(rc)) => if rows.len() < 2 {
                    Some(LoadError::NoMappings)
                } else {
                    first_record_error(rows, pc, rc, 1)
                },
                _ => Some(LoadError::MissingColumn),
            }
        },
    }
}

/// The (pattern, replacement) pairs of the records after the header, in file order.
pub open spec fn loaded_entries(text: Seq<char>, pattern_col: Seq<char>, replacement_col: Seq<char>) -> Seq<(Seq<char>, Seq<char>)> {
    let rows = csv_parse(text)->Some_0;
    let pc = column_index(rows[0], pattern_col)->Some_0;
    let rc = column_index(rows[0], replacement_col)->Some_0;
    rows.subrange(1, rows.len() as int).map_values(|row: Seq<Seq<char>>| (row[pc], row[rc]))
}

fn column_of(header: &Vec<String>, name: &str) -> (r: Option<usize>)
    ensures
        r matches Some(j) ==> column_index(header@.map_values(|f: String| f@), name@) == Some(j as int),
        r is None ==> column_index(header@.map_values(|f: String| f@), name@) is None,
{
    let ghost h = header@.map_values(|f: String| f@);
    let wanted = String::from_str(name);
    let mut j: usize = 0;
    while j < header.len()
        invariant
            j <= header.len(),
            h == header@.map_values(|f: String| f@),
            wanted@ == name@,
            column_from(h, name@, 0) == column_from(h, name@, j as int),
        decreases header.len() - j,
    {
        if header[j] == wanted {
            return Some(j);
        }
        j = j + 1;
    }
    None
}

/// An entry of a sequence with the same multiset as a prefix of `all` stands in that prefix.
proof fn lemma_earlier_pattern(all: Seq<(Seq<char>, Seq<char>)>, e: Seq<(Seq<char>, Seq<char>)>, n: int, d: int)
    requires
        0 <= n <= all.len(),
        0 <= d < e.len(),
        e.to_multiset() =~= all.subrange(0, n).to_multiset(),
    ensures
        exists|i: int| 0 <= i < n && all[i] == e[d],
{
    broadcast use vstd::seq_lib::group_to_multiset_ensures;

    assert(e.contains(e[d]));
    assert(e.to_multiset().count(e[d]) > 0);
    assert(all.subrange(0, n).to_multiset().count(e[d]) > 0);
    assert(all.subrange(0, n).contains(e[d]));
    let i = choose|i: int| 0 <= i < n && all.subrange(0, n)[i] == e[d];
    assert(all[i] == e[d]);
}

/// An entry of a prefix of `all` stands in any sequence with the same multiset.
proof fn lemma_later_pattern(all: Seq<(Seq<char>, Seq<char>)>, e: Seq<(Seq<char>, Seq<char>)>, n: int, i: int)
    requires
        0 <= i < n <= all.len(),
        e.to_multiset() =~= all.subrange(0, n).to_multiset(),
    ensures
        exists|d: int| 0 <= d < e.len() && e[d] == all[i],
{
    broadcast use vstd::seq_lib::group_to_multiset_ensures;

    assert(all.subrange(0, n)[i] == all[i]);
    assert(all.subrange(0, n).contains(all[i]));
    assert(all.subrange(0, n).to_multiset().count(all[i]) > 0);
    assert(e.to_multiset().count(all[i]) > 0);
    assert(e.contains(all[i]));
}

proof fn lemma_insert_multiset<A>(s: Seq<A>, j: int, x: A)
    requires
        0 <= j <= s.len(),
    ensures
        s.insert(j, x).to_multiset() =~= s.to_multiset().insert(x),
{
    broadcast use vstd::seq_lib::group_to_multiset_ensures;

    let t = s.insert(j, x);
    assert(t.remove(j) =~= s);
    assert(t.contains(x)) by {
        assert(t[j] == x);
    }
    assert(t.to_multiset().remove(x) =~= s.to_multiset());
    assert(t.to_multiset().count(x) > 0);
}

/// Inserts `m` after every mapping whose pattern is at least as long, keeping
/// `lens` as the pattern lengths of `sorted`.
fn insert_by_length(sorted: &mut Vec<Mapping>, lens: &mut Vec<usize>, m: Mapping, len: usize)
    requires
        old(sorted).len() == old(lens).len(),
        forall|i: int| 0 <= i < old(lens).len() ==> old(lens)@[i] == old(sorted)@[i].pattern@.len(),
        sorted_longest_first(entries_view(old(sorted)@)),
        distinct_patterns(entries_view(old(sorted)@)),
        forall|i: int| 0 <= i < old(sorted).len() ==> old(sorted)@[i].pattern@ != m.pattern@,
        len == m.pattern@.len(),
    ensures
        distinct_patterns(entries_view(final(sorted)@)),
        final(sorted).len() == old(sorted).len() + 1,
        final(sorted).len() == final(lens).len(),
        forall|i: int| 0 <= i < final(lens).len() ==> final(lens)@[i] == final(sorted)@[i].pattern@.len(),
        sorted_longest_first(entries_view(final(sorted)@)),
        entries_view(final(sorted)@).to_multiset() =~= entries_view(old(sorted)@).to_multiset().insert(m@),
{
    let mut j: usize = 0;
    while j < lens.len() && lens[j] >= len
        invariant
            j <= lens.len(),
            lens.len() == sorted.len(),
            forall|i: int| 0 <= i < j ==> lens@[i] >= len,
        decreases lens.len() - j,
    {
        j = j + 1;
    }
    let ghost old_e = entries_view(sorted@);
    let ghost old_sorted = sorted@;
    let ghost mv = m@;
    sorted.insert(j, m);
    lens.insert(j, len);
    let ghost new_e = entries_view(sorted@);
    assert(new_e =~= old_e.insert(j as int, mv));
    proof {
        lemma_insert_multiset(old_e, j as int, mv);
        assert forall|a: int, b: int| 0 <= a < new_e.len() && 0 <= b < new_e.len() && a != b implies #[trigger] new_e[a].0
            != #[trigger] new_e[b].0 by {
            if a != j && b != j {
                let a0 = if a < j { a } else { a - 1 };
                let b0 = if b < j { b } else { b - 1 };
                assert(new_e[a] == old_e[a0] && new_e[b] == old_e[b0]);
            } else if a == j {
                let b0 = if b < j { b } else { b - 1 };
                assert(old_e[b0].0 == old_sorted[b0].pattern@);
            } else {
                let a0 = if a < j { a } else { a - 1 };
                assert(old_e[a0].0 == old_sorted[a0].pattern@);
            }
        }
        assert forall|a: int, b: int| 0 <= a < b < new_e.len() implies #[trigger] new_e[b].0.len()
            <= #[trigger] new_e[a].0.len() by {
            if b < j {
            } else if b == j {
                assert(lens@[a] >= len);
            } else if a < j {
            } else if a == j {
                assert(old_e[j as int].0.len() < len);
                if b - 1 > j {
                    assert(old_e[b - 1].0.len() <= old_e[j as int].0.len());
                }
            } else {
                assert(old_e[b - 1].0.len() <= old_e[a - 1].0.len());
            }
        }
    }
}

/// Loads one category from CSV text whose header names the pattern and
/// replacement columns. The mappings come out longest pattern first.
pub fn load_category(text: &str, pattern_col: &str, replacement_col: &str, prefixes: Vec<Vec<char>>) -> (r: Result<Category, LoadError>)
    ensures
        r is Err <==> load_error(text@, pattern_col@, replacement_col@) is Some,
        r matches Err(e) ==> load_error(text@, pattern_col@, replacement_col@) == Some(e),
        r matches Ok(cat) ==> {
            &&& cat.wf()
            &&& cat.entries().to_multiset() =~= loaded_entries(text@, pattern_col@, replacement_col@).to_multiset()
            &&& cat.prefixes@ == prefixes@
        },
{
    let rows = match csv_records(text) {
        Ok(rows) => rows,
        Err(_) => return Err(LoadError::Csv),
    };
    let ghost rv = rows_view(rows@);
    if rows.len() == 0 {
        return Err(LoadError::MissingColumn);
    }
    assert(rv[0] == rows@[0]@.map_values(|f: String| f@));
    let pc = match column_of(&rows[0], pattern_col) {
        Some(c) => c,
        None => return Err(LoadError::MissingColumn),
    };
    let rc = match column_of(&rows[0], replacement_col) {
        Some(c) => c,
        None => return Err(LoadError::MissingColumn),
    };
    if rows.len() < 2 {
        return Err(LoadError::NoMappings);
    }
    let ghost all = rv.subrange(1, rv.len() as int).map_values(|row: Seq<Seq<char>>| (row[pc as int], row[rc as int]));
    assert(all == loaded_entries(text@, pattern_col@, replacement_col@));
    let mut sorted: Vec<Mapping> = Vec::new();
    let mut lens: Vec<usize> = Vec::new();
    let mut k: usize = 1;
    assert(entries_view(sorted@) =~= all.subrange(0, 0));
    while k < rows.len()
        invariant
            1 <= k <= rows.len(),
            rv == rows_view(rows@),
            rv.len() >= 2,
            csv_parse(text@) == Some(rv),
            column_index(rv[0], pattern_col@) == Some(pc as int),
            column_index(rv[0], replacement_col@) == Some(rc as int),
            all == rv.subrange(1, rv.len() as int).map_values(|row: Seq<Seq<char>>| (row[pc as int], row[rc as int])),
            first_record_error(rv, pc as int, rc as int, 1) == first_record_error(rv, pc as int, rc as int, k as int),
            sorted.len() == lens.len(),
            sorted.len() == k - 1,
            forall|i: int| 0 <= i < lens.len() ==> lens@[i] == sorted@[i].pattern@.len(),
            sorted_longest_first(entries_view(sorted@)),
            distinct_patterns(entries_view(sorted@)),
            entries_view(sorted@).to_multiset() =~= all.subrange(0, k - 1).to_multiset(),
        decreases rows.len() - k,
    {
        let row = &rows[k];
        assert(rv[k as int] == row@.map_values(|f: String| f@));
        assert(rv[k as int].len() == row.len());
        assert(first_record_error(rv, pc as int, rc as int, k as int) == if record_error(rv, pc as int, rc as int, k as int) is Some {
            record_error(rv, pc as int, rc as int, k as int)
        } else {
            first_record_error(rv, pc as int, rc as int, k + 1)
        });
        if pc >= row.len() || rc >= row.len() {
            assert(record_error(rv, pc as int, rc as int, k as int) == Some(LoadError::ShortRecord { record: k }));
            assert(first_record_error(rv, pc as int, rc as int, 1) == Some(LoadError::ShortRecord { record: k }));
            return Err(LoadError::ShortRecord { record: k });
        }
        assert(rv[k as int][pc as int] == row@[pc as int]@);
        let mut d: usize = 0;
        while d < sorted.len()
            invariant
                d <= sorted.len(),
                1 <= k < rows.len(),
                pc < row.len(),
                rc < row.len(),
                *row == rows@[k as int],
                rv == rows_view(rows@),
                all == rv.subrange(1, rv.len() as int).map_values(|row: Seq<Seq<char>>| (row[pc as int], row[rc as int])),
                sorted.len() == k - 1,
                entries_view(sorted@).to_multiset() =~= all.subrange(0, k - 1).to_multiset(),
                rv[k as int][pc as int] == row@[pc as int]@,
                csv_parse(text@) == Some(rv),
                column_index(rv[0], pattern_col@) == Some(pc as int),
                column_index(rv[0], replacement_col@) == Some(rc as int),
                rv.len() >= 2,
                first_record_error(rv, pc as int, rc as int, 1) == first_record_error(rv, pc as int, rc as int, k as int),
                first_record_error(rv, pc as int, rc as int, k as int) == if record_error(rv, pc as int, rc as int, k as int) is Some {
                    record_error(rv, pc as int, rc as int, k as int)
                } else {
                    first_record_error(rv, pc as int, rc as int, k + 1)
                },
                forall|i: int| 0 <= i < d ==> sorted@[i].pattern@ != row@[pc as int]@,
            decreases sorted.len() - d,
        {
            if sorted[d].pattern.has_source(&row[pc]) {
                proof {
                    lemma_earlier_pattern(all, entries_view(sorted@), k - 1, d as int);
                    let i = choose|i: int| 0 <= i < k - 1 && all[i] == entries_view(sorted@)[d as int];
                    assert(all[i].0 == rv[i + 1][pc as int]);
                    assert(entries_view(sorted@)[d as int].0 == sorted@[d as int].pattern@);
                    assert(rv[i + 1][pc as int] == rv[k as int][pc as int]);
                    assert(record_error(rv, pc as int, rc as int, k as int) == Some(LoadError::DuplicatePattern { record: k }));
                }
                return Err(LoadError::DuplicatePattern { record: k });
            }
            d = d + 1;
        }
        proof {
            assert forall|j: int| 1 <= j < k implies #[trigger] rv[j][pc as int] != rv[k as int][pc as int] by {
                lemma_later_pattern(all, entries_view(sorted@), k - 1, j - 1);
                assert(all[j - 1].0 == rv[j][pc as int]);
                let d = choose|d: int| 0 <= d < entries_view(sorted@).len() && entries_view(sorted@)[d] == all[j - 1];
                assert(entries_view(sorted@)[d].0 == sorted@[d].pattern@);
            }
        }
        let pattern = match Pattern::new(row[pc].as_str()) {
            Ok(p) => p,
            Err(_) => return Err(LoadError::BadPattern { record: k }),
        };
        let replacement = row[rc].clone();
        let m = Mapping { pattern, replacement };
        assert(m@ == all[k - 1]);
        let len = m.pattern.source_len();
        insert_by_length(&mut sorted, &mut lens, m, len);
        assert(all.subrange(0, k as int) =~= all.subrange(0, k - 1).push(all[k - 1]));
        proof {
            broadcast use vstd::seq_lib::group_to_multiset_ensures;
        }
        k = k + 1;
    }
    assert(all.subrange(0, k - 1) =~= all);
    let last = lens.len() - 1;
    let min_match_len = lens[last];
    Ok(Category { mappings: sorted, min_match_len, prefixes })
}

/// Header of the column holding a class pattern.
pub const CLASS_PATTERN_COLUMN: &'static str = "Support Library class";

/// Header of the column holding a class replacement.
pub const CLASS_REPLACEMENT_COLUMN: &'static str = "Android X class";

/// Header of the column holding an artifact pattern.
pub const ARTIFACT_PATTERN_COLUMN: &'static str = "Old build artifact";

/// Header of the column holding an artifact replacement.
pub const ARTIFACT_REPLACEMENT_COLUMN: &'static str = "AndroidX build artifact";

pub const SUPPORT_NAMESPACE: &'static str = "android.support";

pub const ARCH_NAMESPACE: &'static str = "android.arch";

pub const DATABIND_NAMESPACE: &'static str = "android.databinding";

/// Group prefix of the deprecated support artifacts.
pub const SUPPORT_GROUP: &'static str = "com.android.support";

/// Group prefix of the deprecated architecture artifacts.
pub const ARCH_GROUP: &'static str = "android.arch";

/// Every category, read-only once built.
pub struct PatternTables {
    pub support: Category,
    pub arch: Category,
    pub databinding: Category,
    pub artifacts: Category,
}

/// The first error among the four tables, in the order they are loaded.
pub open spec fn tables_error(support: Seq<char>, arch: Seq<char>, databinding: Seq<char>, artifacts: Seq<char>) -> Option<LoadError> {
    if load_error(support, CLASS_PATTERN_COLUMN@, CLASS_REPLACEMENT_COLUMN@) is Some {
        load_error(support, CLASS_PATTERN_COLUMN@, CLASS_REPLACEMENT_COLUMN@)
    } else if load_error(arch, CLASS_PATTERN_COLUMN@, CLASS_REPLACEMENT_COLUMN@) is Some {
        load_error(arch, CLASS_PATTERN_COLUMN@, CLASS_REPLACEMENT_COLUMN@)
    } else if load_error(databinding, CLASS_PATTERN_COLUMN@, CLASS_REPLACEMENT_COLUMN@) is Some {
        load_error(databinding, CLASS_PATTERN_COLUMN@, CLASS_REPLACEMENT_COLUMN@)
    } else {
        load_error(artifacts, ARTIFACT_PATTERN_COLUMN@, ARTIFACT_REPLACEMENT_COLUMN@)
    }
}

impl PatternTables {
    pub open spec fn wf(&self) -> bool {
        &&& self.support.wf()
        &&& self.arch.wf()
        &&& self.databinding.wf()
        &&& self.artifacts.wf()
    }

    /// The namespace gates: each class category is guarded by its namespace,
    /// the artifact table by the two deprecated group prefixes.
    pub open spec fn standard_prefixes(&self) -> bool {
        &&& self.support.prefix_views() == seq![SUPPORT_NAMESPACE@]
        &&& self.arch.prefix_views() == seq![ARCH_NAMESPACE@]
        &&& self.databinding.prefix_views() == seq![DATABIND_NAMESPACE@]
        &&& self.artifacts.prefix_views() == seq![SUPPORT_GROUP@, ARCH_GROUP@]
    }

    /// Builds the tables from the CSV text of each category. Each table's
    /// mappings are the records of its text, longest pattern first.
    pub fn from_csv(support: &str, arch: &str, databinding: &str, artifacts: &str) -> (r: Result<PatternTables, LoadError>)
        ensures
            r is Err <==> tables_error(support@, arch@, databinding@, artifacts@) is Some,
            r matches Err(e) ==> tables_error(support@, arch@, databinding@, artifacts@) == Some(e),
            r matches Ok(t) ==> {
                &&& t.wf()
                &&& t.standard_prefixes()
                &&& t.support.entries().to_multiset() =~= loaded_entries(support@, CLASS_PATTERN_COLUMN@, CLASS_REPLACEMENT_COLUMN@).to_multiset()
                &&& t.arch.entries().to_multiset() =~= loaded_entries(arch@, CLASS_PATTERN_COLUMN@, CLASS_REPLACEMENT_COLUMN@).to_multiset()
                &&& t.databinding.entries().to_multiset() =~= loaded_entries(databinding@, CLASS_PATTERN_COLUMN@, CLASS_REPLACEMENT_COLUMN@).to_multiset()
                &&& t.artifacts.entries().to_multiset() =~= loaded_entries(artifacts@, ARTIFACT_PATTERN_COLUMN@, ARTIFACT_REPLACEMENT_COLUMN@).to_multiset()
            },
    {
        let support_prefixes = vec![chars_of(SUPPORT_NAMESPACE)];
        assert(support_prefixes@.map_values(|p: Vec<char>| p@) =~= seq![SUPPORT_NAMESPACE@]);
        let support = load_category(support, CLASS_PATTERN_COLUMN, CLASS_REPLACEMENT_COLUMN, support_prefixes)?;
        let arch_prefixes = vec![chars_of(ARCH_NAMESPACE)];
        assert(arch_prefixes@.map_values(|p: Vec<char>| p@) =~= seq![ARCH_NAMESPACE@]);
        let arch = load_category(arch, CLASS_PATTERN_COLUMN, CLASS_REPLACEMENT_COLUMN, arch_prefixes)?;
        let databind_prefixes = vec![chars_of(DATABIND_NAMESPACE)];
        assert(databind_prefixes@.map_values(|p: Vec<char>| p@) =~= seq![DATABIND_NAMESPACE@]);
        let databinding = load_category(databinding, CLASS_PATTERN_COLUMN, CLASS_REPLACEMENT_COLUMN, databind_prefixes)?;
        let artifact_prefixes = vec![chars_of(SUPPORT_GROUP), chars_of(ARCH_GROUP)];
        assert(artifact_prefixes@.map_values(|p: Vec<char>| p@) =~= seq![SUPPORT_GROUP@, ARCH_GROUP@]);
        let artifacts = load_category(artifacts, ARTIFACT_PATTERN_COLUMN, ARTIFACT_REPLACEMENT_COLUMN, artifact_prefixes)?;
        Ok(PatternTables { support, arch, databinding, artifacts })
    }

    /// Builds the tables shipped with the library.
    pub fn load() -> (r: Result<PatternTables, LoadError>)
        ensures
            r is Err <==> tables_error(SUPPORT_MAPPING_CSV@, ARCH_MAPPING_CSV@, DATABIND_MAPPING_CSV@, ARTIFACT_MAPPING_CSV@) is Some,
            r matches Err(e) ==> tables_error(SUPPORT_MAPPING_CSV@, ARCH_MAPPING_CSV@, DATABIND_MAPPING_CSV@, ARTIFACT_MAPPING_CSV@) == Some(e),
            r matches Ok(t) ==> {
                &&& t.wf()
                &&& t.standard_prefixes()
                &&& t.support.entries().to_multiset() =~= loaded_entries(SUPPORT_MAPPING_CSV@, CLASS_PATTERN_COLUMN@, CLASS_REPLACEMENT_COLUMN@).to_multiset()
                &&& t.arch.entries().to_multiset() =~= loaded_entries(ARCH_MAPPING_CSV@, CLASS_PATTERN_COLUMN@, CLASS_REPLACEMENT_COLUMN@).to_multiset()
                &&& t.databinding.entries().to_multiset() =~= loaded_entries(DATABIND_MAPPING_CSV@, CLASS_PATTERN_COLUMN@, CLASS_REPLACEMENT_COLUMN@).to_multiset()
                &&& t.artifacts.entries().to_multiset() =~= loaded_entries(ARTIFACT_MAPPING_CSV@, ARTIFACT_PATTERN_COLUMN@, ARTIFACT_REPLACEMENT_COLUMN@).to_multiset()
            },
    {
        PatternTables::from_csv(SUPPORT_MAPPING_CSV, ARCH_MAPPING_CSV, DATABIND_MAPPING_CSV, ARTIFACT_MAPPING_CSV)
    }
}

} // verus!
