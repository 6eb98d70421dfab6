use rusty_jetpack::mappings::PatternTables;
use rusty_jetpack::matcher::MatchInfo;

fn create_matcher() -> PatternTables {
    PatternTables::load().unwrap()
}

fn run(path: &str, contents: &str) -> (MatchInfo, Option<String>) {
    create_matcher().search_and_replace_text(0, path, contents)
}

// search_and_replace tests

#[test]
fn build_file_suggets_replacement() {
    let tables = create_matcher();
    let (match_info, rewritten) = tables.search_and_replace_text(
        0,
        "build.gradle",
        "dependencies {
                implemenation 'com.android.support:support-compat:28.0.0'
            }\n",
    );

    assert!(match_info.matches_found == 0);
    assert!(rewritten.is_none());
    assert!(match_info.artifacts_found.len() == 1);
    let index = *match_info.artifacts_found.first().unwrap();
    assert!(tables.artifacts.mappings[index]
        .replacement
        .contains("androidx.core:core:"));
}

#[test]
fn xml_file_has_instance_replaced() {
    let (match_info, rewritten) = run(
        "app/src/main/res/layout/main.xml",
        "<android.support.design.widget.CoordinatorLayout
                android:layout_width=\"match_parent\"
                android:layout_height=\"match_parent\">
            </android.support.design.widget.CoordinatorLayout>\n",
    );

    let expected = "<androidx.coordinatorlayout.widget.CoordinatorLayout
                android:layout_width=\"match_parent\"
                android:layout_height=\"match_parent\">
            </androidx.coordinatorlayout.widget.CoordinatorLayout>\n";

    assert!(match_info.matches_found == 2);
    assert!(match_info.matched_star_imports.len() == 0);
    assert_eq!(rewritten.unwrap(), expected);
}

#[test]
fn proguard_file_has_several_instances_replaced() {
    let (match_info, rewritten) = run(
        "app/proguard-rules.pro",
        "-keep class android.support.v4.app.Fragment { *; }
            -keep android.support.design.drawable.DrawableUtils
            -dontwarn android.support.design.**
            -keepclassmembers,allowobfuscation class * extends android.arch.lifecycle.ViewModel\n",
    );

    let expected = "-keep class androidx.fragment.app.Fragment { *; }
            -keep com.google.android.material.drawable.DrawableUtils
            -dontwarn android.support.design.**
            -keepclassmembers,allowobfuscation class * extends androidx.lifecycle.ViewModel\n";

    assert!(match_info.matches_found == 3);
    assert!(match_info.matched_star_imports.len() == 1);
    assert_eq!(
        match_info.matched_star_imports.first().unwrap(),
        "            -dontwarn android.support.design.**"
    );
    assert_eq!(rewritten.unwrap(), expected);
}

#[test]
fn java_source_file_has_several_instances_replaced() {
    let (match_info, rewritten) = run(
        "app/src/main/java/com/example/java/ExampleActivity.java",
        "package com.example.java;

            public class ExampleActivity extends android.support.v4.app.ActivityCompat {
                @android.support.annotation.NonNull
                public void doSomething(android.support.constraint.ConstraintSet set) { }
            }\n",
    );

    let expected = "package com.example.java;

            public class ExampleActivity extends androidx.core.app.ActivityCompat {
                @androidx.annotation.NonNull
                public void doSomething(androidx.constraintlayout.widget.ConstraintSet set) { }
            }\n";

    assert!(match_info.matches_found == 3);
    assert!(match_info.matched_star_imports.len() == 0);
    assert_eq!(rewritten.unwrap(), expected);
}

#[test]
fn kotlin_source_file_has_several_instances_replaced() {
    let (match_info, rewritten) = run(
        "app/src/main/java/com/example/kotlin/Example.kt",
        "package com.example.kotlin
            import com.example.package
            import android.arch.lifecycle.ViewModel
            import android.databinding.*

            /**
             * Might or might not use [android.databinding.ObservableInt].
             */
            class Example {
                @set:android.support.annotation.VisibleForTesting
                var something: String? = null
            }\n",
    );

    let expected = "package com.example.kotlin
            import com.example.package
            import androidx.lifecycle.ViewModel
            import android.databinding.*

            /**
             * Might or might not use [androidx.databinding.ObservableInt].
             */
            class Example {
                @set:androidx.annotation.VisibleForTesting
                var something: String? = null
            }\n";

    assert!(match_info.matches_found == 3);
    assert!(match_info.matched_star_imports.len() == 1);
    assert_eq!(rewritten.unwrap(), expected);
}

// find_match/match_line_with_patterns tests

#[test]
fn xml_matching_is_replaced() {
    let matcher = create_matcher();
    let line = "</android.support.constraint.ConstraintLayout>";
    let new_line = "</androidx.constraintlayout.widget.ConstraintLayout>";
    let (replacement, changed, found_star) = matcher.find_match(line);

    assert_eq!(replacement, new_line);
    assert!(changed);
    assert!(!found_star)
}

#[test]
fn annotation_matching_is_replaced() {
    let matcher = create_matcher();
    let line = "        @set:android.support.annotation.VisibleForTesting";
    let new_line = "        @set:androidx.annotation.VisibleForTesting";
    let (replacement, changed, found_star) = matcher.find_match(line);

    assert_eq!(replacement, new_line);
    assert!(changed);
    assert!(!found_star)
}

#[test]
fn kdoc_comment_matching_is_replaced() {
    let matcher = create_matcher();
    let line = "* uses [android.arch.lifecycle.ViewModel] to do stuff.";
    let new_line = "* uses [androidx.lifecycle.ViewModel] to do stuff.";
    let (replacement, changed, found_star) = matcher.find_match(line);

    assert_eq!(replacement, new_line);
    assert!(changed);
    assert!(!found_star);
}

#[test]
fn proguard_matching_line_is_replaced() {
    let matcher = create_matcher();
    let line = "-keep public class * extends android.support.v4.app.Fragment";
    let new_line = "-keep public class * extends androidx.fragment.app.Fragment";
    let (replacement, changed, found_star) = matcher.find_match(line);

    assert_eq!(replacement, new_line);
    assert!(changed);
    assert!(!found_star);
}

#[test]
fn import_matching_is_replaced() {
    let matcher = create_matcher();
    let line = "import android.support.animation.Force;";
    let new_line = "import androidx.dynamicanimation.animation.Force;";
    let (replacement, changed, found_star) = matcher.find_match(line);

    assert_eq!(replacement, new_line);
    assert!(changed);
    assert!(!found_star)
}

#[test]
fn field_matching_is_replaced() {
    let matcher = create_matcher();
    let line = "val page: android.arch.paging.PageResult? = null";
    let new_line = "val page: androidx.paging.PageResult? = null";
    let (replacement, changed, found_star) = matcher.find_match(line);

    assert_eq!(replacement, new_line);
    assert!(changed);
    assert!(!found_star)
}

#[test]
fn function_param_matching_is_replaced() {
    let matcher = create_matcher();
    let line = "public void (android.databinding.Observable obs) {";
    let new_line = "public void (androidx.databinding.Observable obs) {";
    let (replacement, changed, found_star) = matcher.find_match(line);

    assert_eq!(replacement, new_line);
    assert!(changed);
    assert!(!found_star)
}

#[test]
fn too_short_of_line_is_ignored() {
    let matcher = create_matcher();
    let line = "}";
    let (replacement, changed, found_star) = matcher.find_match(line);

    assert_eq!(replacement, line);
    assert!(!changed);
    assert!(!found_star)
}

#[test]
fn star_import_gives_back_same_line() {
    let matcher = create_matcher();
    let line = "import android.support.annotation.*";
    let (replacement, changed, found_star) = matcher.find_match(line);

    assert_eq!(replacement, line);
    assert!(!changed);
    assert!(found_star)
}

// find_artifact_match tests

#[test]
fn artifact_line_returns_mapping() {
    let matcher = create_matcher();
    let line = r#"    implemenation "com.android.support:car:28.0.0""#;

    assert!(matcher.find_artifact_match(line).is_some())
}

#[test]
fn artifact_line_with_single_quote_returns_mapping() {
    let matcher = create_matcher();
    let line = "    implemenation 'com.android.support:car:$version'";

    assert!(matcher.find_artifact_match(line).is_some())
}

#[test]
fn false_positive_artifact_line_returns_none() {
    let matcher = create_matcher();
    let line = r#"val LIB = "com.example.android.support:lib:$VERSION""#;

    assert!(matcher.find_artifact_match(line).is_none())
}
