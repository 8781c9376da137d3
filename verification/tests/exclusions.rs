use octocrabby::exclusions::Exclusions;

fn rows(pairs: &[(&str, &str)]) -> Vec<(String, String)> {
    pairs.iter().map(|(repo, name)| (repo.to_string(), name.to_string())).collect()
}

#[test]
fn loaded_rows_exclude_whatever_the_case() {
    let table = Exclusions::from_pairs(rows(&[("org/repo", "Alice"), ("org/repo", "bob")]));
    assert!(table.is_excluded("org/repo", "ALICE"));
    assert!(table.is_excluded("org/repo", "alice"));
    assert!(table.is_excluded("org/repo", "Alice"));
    assert!(table.is_excluded("org/repo", "bob"));
    assert!(table.is_excluded("org/repo", "BOB"));
    assert!(!table.is_excluded("org/repo", "carol"));
    assert!(!table.is_excluded("other/repo", "bob"));
}

#[test]
fn ghost_and_dependabot_are_always_excluded() {
    let table = Exclusions::from_pairs(rows(&[("org/repo", "Alice"), ("org/repo", "bob")]));
    assert!(table.is_excluded("org/repo", "ghost"));
    assert!(table.is_excluded("other/repo", "ghost"));
    assert!(table.is_excluded("", "ghost"));
    assert!(table.is_excluded("org/repo", "dependabot[bot]"));
    assert!(table.is_excluded("whatever", "dependabot[bot]"));
    assert!(table.is_excluded("whatever", "Ghost"));
    assert!(table.is_excluded("whatever", "Dependabot[BOT]"));
    assert!(!table.is_excluded("whatever", "ghosts"));
    assert!(!table.is_excluded("whatever", "dependabot"));
}

#[test]
fn empty_table_excludes_only_the_fixed_logins() {
    let table = Exclusions::default();
    assert!(table.is_excluded("org/repo", "ghost"));
    assert!(table.is_excluded("org/repo", "dependabot[bot]"));
    assert!(!table.is_excluded("org/repo", "alice"));
}

#[test]
fn repository_names_are_case_sensitive() {
    let table = Exclusions::from_pairs(rows(&[("org/repo", "alice")]));
    assert!(!table.is_excluded("Org/Repo", "alice"));
}

#[test]
fn loading_twice_changes_nothing() {
    let once = Exclusions::from_pairs(rows(&[("org/repo", "Alice"), ("org/repo", "bob")]));
    let twice = Exclusions::from_pairs(rows(&[
        ("org/repo", "Alice"),
        ("org/repo", "bob"),
        ("org/repo", "bob"),
        ("org/repo", "ALICE"),
    ]));
    for repo in ["org/repo", "other/repo"] {
        for name in ["alice", "ALICE", "bob", "carol", "ghost"] {
            assert_eq!(once.is_excluded(repo, name), twice.is_excluded(repo, name));
        }
    }
}

#[test]
fn lowered_query_is_taken_as_it_is() {
    let table = Exclusions::from_pairs(rows(&[("org/repo", "Alice")]));
    assert!(table.is_excluded_lowered("org/repo", "alice"));
    assert!(!table.is_excluded_lowered("org/repo", "Alice"));
    assert!(table.is_excluded_lowered("org/repo", "ghost"));
    assert!(!table.is_excluded_lowered("org/repo", "GHOST"));
}

#[test]
fn non_ascii_logins_are_lowercased() {
    let table = Exclusions::from_pairs(rows(&[("org/repo", "ÉCOLE")]));
    assert!(table.is_excluded("org/repo", "école"));
    assert!(table.is_excluded("org/repo", "École"));
}

#[test]
fn load_reads_two_columns_without_header() {
    let table = Exclusions::load(b"org/repo,Alice\norg/repo,bob\nother/repo,Carol\n").unwrap();
    assert!(table.is_excluded("org/repo", "ALICE"));
    assert!(table.is_excluded("org/repo", "bob"));
    assert!(table.is_excluded("other/repo", "carol"));
    assert!(!table.is_excluded("org/repo", "carol"));
    assert!(!table.is_excluded("other/repo", "bob"));
}

#[test]
fn load_keeps_the_first_row() {
    let table = Exclusions::load(b"org/repo,first\norg/repo,second\n").unwrap();
    assert!(table.is_excluded("org/repo", "first"));
    assert!(table.is_excluded("org/repo", "second"));
}

#[test]
fn load_reads_quoted_fields() {
    let table = Exclusions::load(b"\"org/repo\",\"Al,ice\"\n").unwrap();
    assert!(table.is_excluded("org/repo", "al,ice"));
}

#[test]
fn load_of_nothing_is_the_empty_table() {
    let table = Exclusions::load(b"").unwrap();
    assert!(!table.is_excluded("org/repo", "alice"));
    assert!(table.is_excluded("org/repo", "ghost"));
}

#[test]
fn load_fails_on_rows_of_unequal_length() {
    assert!(Exclusions::load(b"org/repo,alice\norg/repo\n").is_err());
}

#[test]
fn load_fails_on_a_single_column() {
    assert!(Exclusions::load(b"org/repo\n").is_err());
}

#[test]
fn load_fails_on_text_that_is_not_utf8() {
    let outcome = Exclusions::load(b"org/repo,\xff\xfe\n");
    assert!(outcome.is_err());
    let error = outcome.unwrap_err();
    assert!(matches!(error.source.kind(), csv::ErrorKind::Deserialize { .. } | csv::ErrorKind::Utf8 { .. }));
}

#[test]
fn rows_of_one_repository_need_not_be_neighbours() {
    let table = Exclusions::from_pairs(rows(&[
        ("a/one", "x"),
        ("a/one", "w"),
        ("b/two", "y"),
        ("a/one", "z"),
        ("b/two", "v"),
    ]));
    for name in ["x", "w", "z"] {
        assert!(table.is_excluded("a/one", name));
        assert!(!table.is_excluded("b/two", name));
    }
    for name in ["y", "v"] {
        assert!(table.is_excluded("b/two", name));
        assert!(!table.is_excluded("a/one", name));
    }
}
