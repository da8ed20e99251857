use filex::search_index::SearchIndex;
use filex::text::normalize_path;

fn corpus() -> SearchIndex {
    SearchIndex::build_from_entries(vec![
        (1, "/docs/report.txt".to_string()),
        (2, "/docs/notes.txt".to_string()),
        (3, "/images/photo.jpg".to_string()),
    ])
}

fn sorted(mut v: Vec<i64>) -> Vec<i64> {
    v.sort();
    v
}

#[test]
fn test_normalize_path() {
    assert_eq!(normalize_path("Café"), "cafe");
    assert_eq!(normalize_path("naïve"), "naive");
    assert_eq!(normalize_path("HELLO"), "hello");
    assert_eq!(normalize_path("résumé"), "resume");
}

#[test]
fn test_build_and_search_single_term() {
    let entries = vec![
        (1, "/docs/report.txt".to_string()),
        (2, "/docs/notes.txt".to_string()),
        (3, "/images/photo.jpg".to_string()),
    ];

    let index = SearchIndex::build_from_entries(entries);
    assert_eq!(index.len(), 3);

    let results = index.search("report");
    assert_eq!(results, vec![1]);

    let results = index.search("docs");
    assert!(results.contains(&1));
    assert!(results.contains(&2));
    assert_eq!(results.len(), 2);

    let results = index.search("nonexistent");
    assert!(results.is_empty());
}

#[test]
fn test_search_multi_term() {
    let entries = vec![
        (1, "/docs/report.txt".to_string()),
        (2, "/docs/notes.txt".to_string()),
        (3, "/images/photo.jpg".to_string()),
    ];

    let index = SearchIndex::build_from_entries(entries);

    let results = index.search("docs report");
    assert_eq!(results, vec![1]);

    let results = index.search("docs txt");
    assert!(results.contains(&1));
    assert!(results.contains(&2));
    assert_eq!(results.len(), 2);

    let results = index.search("docs jpg");
    assert!(results.is_empty());
}

#[test]
fn test_search_case_insensitive() {
    let entries = vec![
        (1, "/Docs/Report.TXT".to_string()),
        (2, "/docs/notes.txt".to_string()),
    ];

    let index = SearchIndex::build_from_entries(entries);

    let results = index.search("REPORT");
    assert_eq!(results, vec![1]);

    let results = index.search("docs");
    assert!(results.contains(&1));
    assert!(results.contains(&2));
}

#[test]
fn test_search_with_diacritics() {
    let entries = vec![
        (1, "/docs/café.txt".to_string()),
        (2, "/docs/resume.txt".to_string()),
        (3, "/docs/résumé.pdf".to_string()),
    ];

    let index = SearchIndex::build_from_entries(entries);

    let results = index.search("cafe");
    assert_eq!(results, vec![1]);

    let results = index.search("resume");
    assert!(results.contains(&2));
    assert!(results.contains(&3));
}

#[test]
fn test_add_entry() {
    let mut index = SearchIndex::new();

    index.add_entry(1, "/docs/file1.txt");
    index.add_entry(2, "/docs/file2.txt");

    assert_eq!(index.len(), 2);

    let results = index.search("file1");
    assert_eq!(results, vec![1]);
}

#[test]
fn test_remove_entry() {
    let entries = vec![
        (1, "/docs/file1.txt".to_string()),
        (2, "/docs/file2.txt".to_string()),
        (3, "/docs/file3.txt".to_string()),
    ];

    let mut index = SearchIndex::build_from_entries(entries);

    assert!(index.remove_entry("/docs/file2.txt"));
    assert_eq!(index.len(), 2);

    let results = index.search("file2");
    assert!(results.is_empty());

    let results = index.search("file1");
    assert_eq!(results, vec![1]);

    let results = index.search("file3");
    assert_eq!(results, vec![3]);

    assert!(!index.remove_entry("/nonexistent"));
}

#[test]
fn test_rename_entry() {
    let entries = vec![
        (1, "/docs/old.txt".to_string()),
        (2, "/docs/other.txt".to_string()),
    ];

    let mut index = SearchIndex::build_from_entries(entries);

    assert!(index.rename_entry("/docs/old.txt", "/docs/new.txt"));

    let results = index.search("old");
    assert!(results.is_empty());

    let results = index.search("new");
    assert_eq!(results, vec![1]);

    let results = index.search("other");
    assert_eq!(results, vec![2]);
}

#[test]
fn test_find_id_by_path() {
    let entries = vec![
        (1, "/docs/file1.txt".to_string()),
        (2, "/docs/file2.txt".to_string()),
    ];

    let index = SearchIndex::build_from_entries(entries);

    assert_eq!(index.find_id_by_path("/docs/file1.txt"), Some(1));
    assert_eq!(index.find_id_by_path("/docs/file2.txt"), Some(2));
    assert_eq!(index.find_id_by_path("/nonexistent"), None);
}

#[test]
fn test_empty_query() {
    let entries = vec![(1, "/docs/file.txt".to_string())];
    let index = SearchIndex::build_from_entries(entries);

    let results = index.search("");
    assert!(results.is_empty());

    let results = index.search("   ");
    assert!(results.is_empty());
}

#[test]
fn normalize_is_idempotent_on_samples() {
    for s in ["Café", "RÉSUMÉ", "/Docs/Naïve Ünïcödé.TXT", "h&m", "", "ÅNGSTRÖM", "İstanbul"] {
        let once = normalize_path(s);
        assert_eq!(normalize_path(&once), once);
    }
}

#[test]
fn diacritics_fold_to_plain_letters() {
    assert_eq!(normalize_path("café"), "cafe");
    assert_eq!(normalize_path("cafe"), "cafe");
    assert_eq!(normalize_path("RÉSUMÉ"), "resume");
}

#[test]
fn single_term_search_on_sample_corpus() {
    let index = corpus();
    assert_eq!(index.search("report"), vec![1]);
    assert_eq!(sorted(index.search("docs")), vec![1, 2]);
    assert_eq!(index.search("zzz"), Vec::<i64>::new());
}

#[test]
fn multi_term_search_needs_every_term() {
    let index = corpus();
    assert_eq!(index.search("docs report"), vec![1]);
    assert_eq!(index.search("report docs"), vec![1]);
    assert!(index.search("docs jpg").is_empty());
}

#[test]
fn multi_term_search_with_overlapping_and_repeated_terms() {
    let index = corpus();
    assert_eq!(index.search("docs ocs"), vec![1, 2]);
    assert_eq!(index.search("docs docs"), vec![1, 2]);
    assert_eq!(index.search("DOCS\tReport\n"), vec![1]);
}

#[test]
fn special_characters_match_literally() {
    let index = SearchIndex::build_from_entries(vec![
        (1, "/docs/h&m.txt".to_string()),
        (2, "/docs/hm.txt".to_string()),
        (3, "/docs/h-m.txt".to_string()),
    ]);
    assert_eq!(index.search("h&m"), vec![1]);
}

#[test]
fn incremental_updates_match_a_rebuild() {
    let mut index = SearchIndex::new();
    index.add_entry(1, "/docs/report.txt");
    index.add_entry(2, "/docs/draft.txt");
    index.add_entry(3, "/images/photo.jpg");
    index.add_entry(4, "/music/song.mp3");
    assert!(index.rename_entry("/docs/draft.txt", "/docs/notes.txt"));
    assert!(index.remove_entry("/music/song.mp3"));
    assert!(index.rename_entry("/images/photo.jpg", "/images/Événement.jpg"));

    let rebuilt = SearchIndex::build_from_entries(vec![
        (3, "/images/Événement.jpg".to_string()),
        (1, "/docs/report.txt".to_string()),
        (2, "/docs/notes.txt".to_string()),
    ]);
    assert_eq!(index.len(), rebuilt.len());
    for q in ["docs", "txt", "evenement", "song", "report docs", "jpg images", "", "o"] {
        assert_eq!(sorted(index.search(q)), sorted(rebuilt.search(q)), "query {q:?}");
    }
}

#[test]
fn absent_paths_leave_the_index_unchanged() {
    let mut index = corpus();
    assert!(!index.remove_entry("/docs/missing.txt"));
    assert!(!index.rename_entry("/docs/missing.txt", "/docs/other.txt"));
    assert_eq!(index.len(), 3);
    assert_eq!(sorted(index.search("docs")), vec![1, 2]);
    assert_eq!(index.search("photo"), vec![3]);
    assert!(index.search("other").is_empty());
}

#[test]
fn removing_the_last_and_first_entries_keeps_the_others() {
    let mut index = corpus();
    assert!(index.remove_entry("/images/photo.jpg"));
    assert!(index.remove_entry("/docs/report.txt"));
    assert_eq!(index.len(), 1);
    assert_eq!(index.search("notes"), vec![2]);
    assert_eq!(index.find_id_by_path("/docs/notes.txt"), Some(2));
    assert!(index.remove_entry("/docs/notes.txt"));
    assert!(index.is_empty());
    assert!(index.search("docs").is_empty());
}

#[test]
fn rename_to_a_longer_path_shifts_later_entries() {
    let mut index = corpus();
    assert!(index.rename_entry("/docs/report.txt", "/docs/quarterly-report-final.txt"));
    assert_eq!(index.search("quarterly"), vec![1]);
    assert_eq!(index.search("notes"), vec![2]);
    assert_eq!(index.search("photo"), vec![3]);
    assert_eq!(index.find_id_by_path("/docs/quarterly-report-final.txt"), Some(1));
    assert_eq!(index.find_id_by_path("/docs/report.txt"), None);
}

#[test]
fn duplicate_paths_resolve_to_the_first_entry() {
    let mut index = SearchIndex::build_from_entries(vec![
        (7, "/a.txt".to_string()),
        (8, "/a.txt".to_string()),
    ]);
    assert_eq!(index.find_id_by_path("/a.txt"), Some(7));
    assert!(index.remove_entry("/a.txt"));
    assert_eq!(index.find_id_by_path("/a.txt"), Some(8));
}

#[test]
fn two_terms_find_the_intersection_in_any_order() {
    let index = SearchIndex::build_from_entries(vec![
        (1, "/docs/report.txt".to_string()),
        (2, "/docs/notes.txt".to_string()),
        (3, "/images/report.jpg".to_string()),
        (4, "/images/photo.jpg".to_string()),
    ]);
    let a = sorted(index.search("report"));
    let b = sorted(index.search("jpg"));
    let both: Vec<i64> = a.iter().copied().filter(|x| b.contains(x)).collect();
    assert_eq!(sorted(index.search("report jpg")), both);
    assert_eq!(index.search("jpg  report"), index.search("report jpg"));
    assert_eq!(index.search("report jpg"), vec![3]);
}
