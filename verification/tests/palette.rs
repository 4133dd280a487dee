use webwiki::palette::{
    destination, filter_items, fixed_commands, new_file_path, palette_key, should_search,
    CommandItem, CommandType, PaletteStep, DEFAULT_VOLUME, MAX_FILES,
};
use webwiki::routes::Route;
use webwiki::search::SearchResult;

fn titles(items: &[CommandItem]) -> Vec<&str> {
    items.iter().map(|item| item.title.as_str()).collect()
}

fn found(path: &str, volume: Option<&str>, matches: &[&str]) -> SearchResult {
    SearchResult {
        path: path.to_string(),
        matches: matches.iter().map(|m| m.to_string()).collect(),
        volume: volume.map(|v| v.to_string()),
    }
}

#[test]
fn fixed_commands_are_three() {
    let items = fixed_commands();
    assert_eq!(titles(&items), vec!["Go to Home", "Toggle Theme", "Create New File"]);
    assert_eq!(items[0].description, "Navigate to the home page");
    assert_eq!(items[1].description, "Switch between light and dark mode");
    assert_eq!(items[2].description, "Create a new file in the current volume");
    assert!(matches!(items[0].command_type, CommandType::GoHome));
    assert!(matches!(items[1].command_type, CommandType::ToggleTheme));
    assert!(matches!(items[2].command_type, CommandType::CreateFile));
}

#[test]
fn an_empty_query_lists_the_commands() {
    let files = vec!["a.md".to_string()];
    let items = filter_items("", &files, "default", &Vec::new());
    assert_eq!(titles(&items), vec!["Go to Home", "Toggle Theme", "Create New File"]);
}

#[test]
fn commands_are_found_by_title_or_description() {
    let none = Vec::new();
    assert_eq!(titles(&filter_items("THEME", &none, "v", &Vec::new())), vec!["Toggle Theme"]);
    assert_eq!(titles(&filter_items("dark", &none, "v", &Vec::new())), vec!["Toggle Theme"]);
    assert_eq!(
        titles(&filter_items("e", &none, "v", &Vec::new())),
        vec!["Go to Home", "Toggle Theme", "Create New File"]
    );
    assert_eq!(
        titles(&filter_items("home", &none, "v", &Vec::new())),
        vec!["Go to Home"]
    );
    assert!(filter_items("zzz", &none, "v", &Vec::new()).is_empty());
}

#[test]
fn files_are_listed_for_queries_of_two_bytes() {
    let files = vec!["notes/Zebra.md".to_string(), "zoo.md".to_string(), "other.md".to_string()];
    assert!(filter_items("z", &files, "work", &Vec::new()).is_empty());
    let items = filter_items("ZO", &files, "work", &Vec::new());
    assert_eq!(titles(&items), vec!["zoo.md"]);
    assert_eq!(items[0].description, "File in work");
    match &items[0].command_type {
        CommandType::OpenFile { volume, path } => {
            assert_eq!((volume.as_str(), path.as_str()), ("work", "zoo.md"))
        }
        _ => panic!("a file entry opens a file"),
    }
    // One character of two bytes is long enough.
    assert!(should_search("é"));
    assert!(!should_search("e"));
    assert!(!should_search(""));
    assert!(should_search("ab"));
}

#[test]
fn at_most_ten_files_are_listed() {
    assert_eq!(MAX_FILES, 10);
    let files: Vec<String> = (0..15).map(|i| format!("zz{}.md", i)).collect();
    let items = filter_items("zz", &files, "v", &Vec::new());
    let expected: Vec<String> = (0..10).map(|i| format!("zz{}.md", i)).collect();
    assert_eq!(titles(&items), expected);
}

#[test]
fn search_results_come_last_and_unfiltered() {
    let files = vec!["home.md".to_string()];
    let results = vec![
        found("a.md", Some("work"), &["first line", "second"]),
        found("b.md", None, &[]),
    ];
    let items = filter_items("home", &files, "default", &results);
    assert_eq!(titles(&items), vec!["Go to Home", "home.md", "work: a.md", "b.md"]);
    assert_eq!(items[2].description, "first line");
    assert_eq!(items[3].description, "");
    match &items[2].command_type {
        CommandType::OpenResult { path, volume, snippet } => {
            assert_eq!(path, "a.md");
            assert_eq!(volume.as_deref(), Some("work"));
            assert_eq!(snippet.as_deref(), Some("first line"));
        }
        _ => panic!("a result entry opens a result"),
    }
    match &items[3].command_type {
        CommandType::OpenResult { path, volume, snippet } => {
            assert_eq!(path, "b.md");
            assert_eq!(volume, &None);
            assert_eq!(snippet, &None);
        }
        _ => panic!("a result entry opens a result"),
    }
}

#[test]
fn arrows_move_the_selection_within_the_list() {
    assert_eq!(palette_key("ArrowDown", 0, 3), PaletteStep::Select(1));
    assert_eq!(palette_key("ArrowDown", 1, 3), PaletteStep::Select(2));
    assert_eq!(palette_key("ArrowDown", 2, 3), PaletteStep::Stay);
    assert_eq!(palette_key("ArrowDown", 0, 0), PaletteStep::Stay);
    assert_eq!(palette_key("ArrowDown", usize::MAX, usize::MAX), PaletteStep::Stay);
    assert_eq!(palette_key("ArrowUp", 2, 3), PaletteStep::Select(1));
    assert_eq!(palette_key("ArrowUp", 0, 3), PaletteStep::Stay);
    assert_eq!(palette_key("ArrowUp", 5, 3), PaletteStep::Select(4));
}

#[test]
fn enter_runs_and_escape_closes() {
    assert_eq!(palette_key("Enter", 1, 3), PaletteStep::Run(1));
    assert_eq!(palette_key("Enter", 3, 3), PaletteStep::Stay);
    assert_eq!(palette_key("Enter", 0, 0), PaletteStep::Stay);
    assert_eq!(palette_key("Escape", 1, 3), PaletteStep::Close);
    assert_eq!(palette_key("a", 1, 3), PaletteStep::Pass);
    assert_eq!(palette_key("enter", 1, 3), PaletteStep::Pass);
}

#[test]
fn destinations() {
    let items = fixed_commands();
    assert!(matches!(destination(&items[0]), Some(Route::Home)));
    assert!(destination(&items[1]).is_none());
    assert!(destination(&items[2]).is_none());
    let listed = filter_items(
        "zz",
        &vec!["zz.md".to_string()],
        "work",
        &vec![found("p.md", None, &["x"]), found("q.md", Some("v2"), &[])],
    );
    let places: Vec<(String, String)> = listed
        .iter()
        .map(|item| match destination(item) {
            Some(Route::Wiki { volume, path }) => (volume, path),
            _ => panic!("a page expected"),
        })
        .collect();
    assert_eq!(DEFAULT_VOLUME, "default");
    assert_eq!(
        places,
        vec![
            ("work".to_string(), "zz.md".to_string()),
            ("default".to_string(), "p.md".to_string()),
            ("v2".to_string(), "q.md".to_string())
        ]
    );
}

#[test]
fn new_file_paths_are_trimmed() {
    assert_eq!(new_file_path(Some("  folder/note.md \n")), Some("folder/note.md".to_string()));
    assert_eq!(new_file_path(Some("a b")), Some("a b".to_string()));
    assert_eq!(new_file_path(Some("   ")), None);
    assert_eq!(new_file_path(Some("")), None);
    assert_eq!(new_file_path(None), None);
    // The no-break space is white space too.
    assert_eq!(new_file_path(Some("\u{a0}x\u{a0}")), Some("x".to_string()));
}
