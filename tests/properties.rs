use rusty_jetpack::finder::Finder;
use rusty_jetpack::mappings::{LoadError, PatternTables};
use rusty_jetpack::paths::check_artifacts;
use rusty_jetpack::run::{tally, thread_count, worker_count};

const CLASS_HEADER: &str = "Support Library class,Android X class\n";
const ARTIFACT_HEADER: &str = "Old build artifact,AndroidX build artifact\n";

fn tables() -> PatternTables {
    PatternTables::load().unwrap()
}

#[test]
fn import_is_rewritten_with_one_replacement() {
    let (info, rewritten) =
        tables().search_and_replace_text(0, "src/Example.java", "import android.support.animation.Force;\n");
    assert_eq!(info.matches_found, 1);
    assert_eq!(rewritten.unwrap(), "import androidx.dynamicanimation.animation.Force;\n");
}

#[test]
fn glob_directive_is_reported_and_kept() {
    let (info, rewritten) =
        tables().search_and_replace_text(0, "proguard-rules.pro", "-dontwarn android.support.design.**\n");
    assert_eq!(info.matches_found, 0);
    assert!(rewritten.is_none());
    assert_eq!(info.matched_star_imports, vec!["-dontwarn android.support.design.**".to_string()]);
}

#[test]
fn build_declaration_suggests_an_artifact() {
    let t = tables();
    let (info, rewritten) =
        t.search_and_replace_text(0, "app/build.gradle", "implementation 'com.android.support:car:28.0.0'\n");
    assert_eq!(info.matches_found, 0);
    assert!(rewritten.is_none());
    assert_eq!(info.artifacts_found.len(), 1);
    let mapping = &t.artifacts.mappings[info.artifacts_found[0]];
    assert_eq!(mapping.pattern.as_str(), "com.android.support:car");
    assert!(mapping.replacement.starts_with("androidx."));
}

#[test]
fn repeated_artifact_is_reported_once() {
    let t = tables();
    let (info, _) = t.search_and_replace_text(
        0,
        "build.gradle",
        "implementation 'com.android.support:car:28.0.0'\ncompileOnly 'com.android.support:car:28.0.0'\n",
    );
    assert_eq!(info.artifacts_found.len(), 1);
}

#[test]
fn artifacts_are_not_looked_for_deep_in_the_tree() {
    let (info, _) = tables().search_and_replace_text(
        0,
        "a/b/c/build.gradle",
        "implementation 'com.android.support:car:28.0.0'\n",
    );
    assert!(info.artifacts_found.is_empty());
}

#[test]
fn second_run_on_migrated_text_changes_nothing() {
    let t = tables();
    let original = "import android.support.v7.widget.Toolbar;\nimport android.arch.lifecycle.LiveData\n";
    let (first, rewritten) = t.search_and_replace_text(0, "A.kt", original);
    assert_eq!(first.matches_found, 2);
    let migrated = rewritten.unwrap();
    let (second, again) = t.search_and_replace_text(0, "A.kt", &migrated);
    assert_eq!(second.matches_found, 0);
    assert!(again.is_none());
}

#[test]
fn text_without_matches_is_not_rewritten() {
    let (info, rewritten) = tables().search_and_replace_text(3, "Main.kt", "fun main() {\n}\n");
    assert_eq!(info.matcher_id, 3);
    assert_eq!(info.path, "Main.kt");
    assert_eq!(info.matches_found, 0);
    assert!(rewritten.is_none());
}

#[test]
fn empty_text_is_not_rewritten() {
    let (info, rewritten) = tables().search_and_replace_text(0, "Empty.java", "");
    assert_eq!(info.matches_found, 0);
    assert!(rewritten.is_none());
}

#[test]
fn line_endings_are_kept() {
    let (info, rewritten) = tables().search_and_replace_text(
        0,
        "A.java",
        "import android.support.annotation.NonNull;\r\nclass A {}\nlast line",
    );
    assert_eq!(info.matches_found, 1);
    assert_eq!(rewritten.unwrap(), "import androidx.annotation.NonNull;\r\nclass A {}\nlast line");
}

#[test]
fn crlf_line_keeps_its_ending_when_rewritten() {
    let (_, rewritten) =
        tables().search_and_replace_text(0, "A.java", "import android.support.annotation.NonNull;\r\n");
    assert_eq!(rewritten.unwrap(), "import androidx.annotation.NonNull;\r\n");
}

#[test]
fn unchanged_lines_come_back_byte_for_byte() {
    let contents = "// header\r\n\r\n  spaced  \nimport android.support.v4.app.Fragment\n\nend";
    let (_, rewritten) = tables().search_and_replace_text(0, "A.kt", contents);
    assert_eq!(
        rewritten.unwrap(),
        "// header\r\n\r\n  spaced  \nimport androidx.fragment.app.Fragment\n\nend"
    );
}

#[test]
fn replacement_is_inserted_literally() {
    let support = format!("{}android.support.a.(Bee),androidx.a.$1\n", CLASS_HEADER);
    let arch = format!("{}android.arch.x.Y,androidx.x.Y\n", CLASS_HEADER);
    let t = PatternTables::from_csv(&support, &arch, &arch, &format!("{}a:b,c\n", ARTIFACT_HEADER)).unwrap();
    let (line, changed, _) = t.find_match(" android.support.a.Bee x");
    assert!(changed);
    assert_eq!(line, " androidx.a.$1 x");
}

#[test]
fn artifact_gate_ignores_surrounding_white_space() {
    let arch = format!("{}android.arch.x.Y,androidx.x.Y\n", CLASS_HEADER);
    let artifacts = format!("{}com\\.android\\.support:(a),androidx.a:a:1.0.0\n", ARTIFACT_HEADER);
    let t = PatternTables::from_csv(&arch, &arch, &arch, &artifacts).unwrap();
    // 23 characters once trimmed, shorter than the 25 of the pattern's source.
    let padded = "          'com.android.support:a'          ";
    assert!(t.find_artifact_match(padded).is_none());
    let line = "'com.android.support:a', xx";
    assert_eq!(t.find_artifact_match(line), Some(0));
}

#[test]
fn longest_pattern_wins() {
    let (line, changed, _) = tables().find_match("import android.support.v7.widget.ToolbarWidgetWrapper;");
    assert!(changed);
    assert_eq!(line, "import androidx.appcompat.widget.ToolbarWidgetWrapper;");
}

#[test]
fn namespace_inside_a_longer_name_is_ignored() {
    let (line, changed, star) = tables().find_match("import com.example.android.support.v4.app.Fragment;");
    assert_eq!(line, "import com.example.android.support.v4.app.Fragment;");
    assert!(!changed);
    assert!(!star);
}

#[test]
fn short_line_skips_every_category() {
    let t = tables();
    let line = " android.support.Foo";
    assert!(line.len() < t.support.min_match_len);
    let (out, changed, star) = t.find_match(line);
    assert_eq!(out, line);
    assert!(!changed);
    assert!(!star);
}

#[test]
fn only_the_first_reference_on_a_line_is_rewritten() {
    let (line, changed, _) = tables().find_match(
        "fun f(a: android.support.v4.app.Fragment, b: android.support.v4.app.Fragment)",
    );
    assert!(changed);
    assert_eq!(
        line,
        "fun f(a: androidx.fragment.app.Fragment, b: android.support.v4.app.Fragment)"
    );
}

#[test]
fn line_with_namespace_but_no_mapping_is_kept() {
    let (line, changed, star) = tables().find_match("import android.support.unknown.Thing;");
    assert_eq!(line, "import android.support.unknown.Thing;");
    assert!(!changed);
    assert!(!star);
}

#[test]
fn tables_are_loaded_from_csv_text() {
    let support = format!("{}android.support.a.LongerName,androidx.a.LongerName\nandroid.support.a.B,androidx.a.B\n", CLASS_HEADER);
    let arch = format!("{}android.arch.x.Y,androidx.x.Y\n", CLASS_HEADER);
    let databinding = format!("{}android.databinding.Z,androidx.databinding.Z\n", CLASS_HEADER);
    let artifacts = format!("{}com.android.support:b,androidx.b:b:1.0.0\n", ARTIFACT_HEADER);
    let t = PatternTables::from_csv(&support, &arch, &databinding, &artifacts).unwrap();
    assert_eq!(t.support.mappings.len(), 2);
    assert_eq!(t.support.mappings[0].pattern.as_str(), "android.support.a.LongerName");
    assert_eq!(t.support.mappings[1].pattern.as_str(), "android.support.a.B");
    assert_eq!(t.support.min_match_len, "android.support.a.B".len());
    let (line, changed, _) = t.find_match(" android.support.a.B x");
    assert!(changed);
    assert_eq!(line, " androidx.a.B x");
}

#[test]
fn equal_length_patterns_keep_file_order() {
    let support = format!("{}android.support.a.A1,first\nandroid.support.a.A2,second\n", CLASS_HEADER);
    let arch = format!("{}android.arch.x.Y,androidx.x.Y\n", CLASS_HEADER);
    let t = PatternTables::from_csv(&support, &arch, &arch, &format!("{}a:b,c\n", ARTIFACT_HEADER)).unwrap();
    assert_eq!(t.support.mappings[0].replacement, "first");
    assert_eq!(t.support.mappings[1].replacement, "second");
}

#[test]
fn missing_column_is_an_error() {
    let bad = "Pattern,Replacement\na,b\n";
    let good = format!("{}android.arch.x.Y,androidx.x.Y\n", CLASS_HEADER);
    let artifacts = format!("{}a:b,c\n", ARTIFACT_HEADER);
    let r = PatternTables::from_csv(bad, &good, &good, &artifacts);
    assert_eq!(r.err(), Some(LoadError::MissingColumn));
}

#[test]
fn header_only_table_is_an_error() {
    let good = format!("{}android.arch.x.Y,androidx.x.Y\n", CLASS_HEADER);
    let r = PatternTables::from_csv(&good, CLASS_HEADER, &good, &format!("{}a:b,c\n", ARTIFACT_HEADER));
    assert_eq!(r.err(), Some(LoadError::NoMappings));
}

#[test]
fn invalid_pattern_is_an_error() {
    let good = format!("{}android.arch.x.Y,androidx.x.Y\n", CLASS_HEADER);
    let bad = format!("{}android.arch.x.Y,ok\nandroid.arch.(,broken\n", CLASS_HEADER);
    let r = PatternTables::from_csv(&good, &good, &bad, &format!("{}a:b,c\n", ARTIFACT_HEADER));
    assert_eq!(r.err(), Some(LoadError::BadPattern { record: 2 }));
}

#[test]
fn ragged_csv_is_an_error() {
    let good = format!("{}android.arch.x.Y,androidx.x.Y\n", CLASS_HEADER);
    let bad = format!("{}a:b\n", ARTIFACT_HEADER);
    let r = PatternTables::from_csv(&good, &good, &good, &bad);
    assert_eq!(r.err(), Some(LoadError::Csv));
}

#[test]
fn columns_are_found_by_header_name() {
    let good = format!("{}android.arch.x.Y,androidx.x.Y\n", CLASS_HEADER);
    let header_first = "Android X class,Support Library class,Note\nandroidx.x.Y,android.arch.x.Y,\"\"\n";
    let t = PatternTables::from_csv(&good, header_first, &good, &format!("{}a:b,c\n", ARTIFACT_HEADER)).unwrap();
    assert_eq!(t.arch.mappings[0].pattern.as_str(), "android.arch.x.Y");
    assert_eq!(t.arch.mappings[0].replacement, "androidx.x.Y");
}

#[test]
fn build_locations_are_recognised() {
    assert!(check_artifacts("build.gradle"));
    assert!(check_artifacts("app/build.gradle"));
    assert!(check_artifacts("buildSrc/src/main/kotlin/Deps.kt"));
    assert!(!check_artifacts("app/src/build.gradle"));
    assert!(!check_artifacts("app/proguard-rules.pro"));
    assert!(!check_artifacts("app/AndroidManifest.xml"));
    assert!(!check_artifacts("Makefile"));
    assert!(!check_artifacts(".gradle"));
}

#[test]
fn four_workers_ten_files_round_robin() {
    let listing: String = (0..10).map(|i| format!("src/File{}.kt\n", i)).collect();
    let (per, info) = Finder::new().find_paths(&listing, 4);
    assert_eq!(info.total_files_found, 10);
    assert_eq!(info.num_files_per_matcher, vec![3, 3, 2, 2]);
    for k in 0..10 {
        assert_eq!(per[k % 4][k / 4], format!("src/File{}.kt", k));
    }
    let t = tables();
    let mut counts = Vec::new();
    let mut expected = 0;
    for (w, paths) in per.iter().enumerate() {
        for path in paths {
            let n: usize = path.trim_start_matches("src/File").trim_end_matches(".kt").parse().unwrap();
            let contents = "import android.support.v4.app.Fragment\n".repeat(n);
            let (info, _) = t.search_and_replace_text(w, path, &contents);
            assert_eq!(info.matches_found, n);
            counts.push(info.matches_found);
            expected += n;
        }
    }
    let totals = tally(&counts).unwrap();
    assert_eq!(totals.replacements, expected);
    assert_eq!(totals.replacements, 45);
    assert_eq!(totals.files_changed, 9);
}

#[test]
fn finder_keeps_only_source_files() {
    let listing = "README.md\napp/build.gradle\napp/src/A.java\nlogo.png\nrules.pro\nres/layout.xml\nB.kt\n";
    let (per, info) = Finder::new().find_paths(listing, 2);
    assert_eq!(info.total_files_found, 5);
    assert_eq!(per[0], vec!["app/build.gradle", "rules.pro", "B.kt"]);
    assert_eq!(per[1], vec!["app/src/A.java", "res/layout.xml"]);
}

#[test]
fn finder_with_more_workers_than_files() {
    let (per, info) = Finder::new().find_paths("A.kt\n", 3);
    assert_eq!(info.num_files_per_matcher, vec![1, 0, 0]);
    assert_eq!(per.len(), 3);
}

#[test]
fn tally_reports_overflow() {
    assert!(tally(&[usize::MAX, 1]).is_none());
    let t = tally(&[]).unwrap();
    assert_eq!(t.replacements, 0);
    assert_eq!(t.files_changed, 0);
}

#[test]
fn worker_count_is_capped() {
    assert_eq!(worker_count(Some(16), 4), 4);
    assert_eq!(worker_count(Some(2), 4), 2);
    assert_eq!(worker_count(None, 8), 8);
}

#[test]
fn duplicate_pattern_is_an_error() {
    let good = format!("{}android.arch.x.Y,androidx.x.Y\n", CLASS_HEADER);
    let bad = format!("{}android.arch.x.Y,a\nandroid.arch.x.Z,b\nandroid.arch.x.Y,c\n", CLASS_HEADER);
    let r = PatternTables::from_csv(&good, &bad, &good, &format!("{}a:b,c\n", ARTIFACT_HEADER));
    assert_eq!(r.err(), Some(LoadError::DuplicatePattern { record: 3 }));
}

#[test]
fn shipped_tables_have_distinct_patterns() {
    let t = tables();
    for category in [&t.support, &t.arch, &t.databinding, &t.artifacts] {
        for (i, a) in category.mappings.iter().enumerate() {
            for b in category.mappings.iter().skip(i + 1) {
                assert_ne!(a.pattern.as_str(), b.pattern.as_str());
            }
        }
    }
}

#[test]
fn thread_count_follows_the_request() {
    assert!(thread_count(None) >= 1);
    assert_eq!(thread_count(Some(1)), 1);
    assert_eq!(thread_count(Some(0)), 0);
}

fn chars(s: &str) -> Vec<char> {
    s.chars().collect()
}

#[test]
fn scan_state_records_each_kind_of_line() {
    let mut state = rusty_jetpack::matcher::ScanState::new();
    state.record_line(&chars("import a.B"), &chars("\n"), chars("import x.B"), true, false, true, None);
    state.record_line(&chars("import a.*"), &chars("\r\n"), chars("import a.*"), false, true, true, Some(7));
    state.record_line(&chars("dep 'g:a'"), &chars("\n"), chars("dep 'g:a'"), false, false, true, Some(4));
    state.record_line(&chars("dep 'g:a'"), &chars("\n"), chars("dep 'g:a'"), false, false, true, Some(4));
    state.record_line(&chars("dep 'g:b'"), &chars(""), chars("dep 'g:b'"), false, false, true, Some(2));
    assert_eq!(state.replacements, 1);
    assert_eq!(state.star_imports, vec!["import a.*".to_string()]);
    assert_eq!(state.artifacts, vec![4, 2]);
    let text: String = state.output.iter().collect();
    assert_eq!(text, "import x.B\nimport a.*\r\ndep 'g:a'\ndep 'g:a'\ndep 'g:b'");
}

#[test]
fn scan_state_ignores_artifacts_where_not_looked_for() {
    let mut state = rusty_jetpack::matcher::ScanState::new();
    state.record_line(&chars("dep 'g:a'"), &chars("\n"), chars("dep 'g:a'"), false, false, false, Some(4));
    assert!(state.artifacts.is_empty());
    assert_eq!(state.replacements, 0);
}
