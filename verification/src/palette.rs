//! The command palette: what it lists for a query, and what its keys do.

use crate::routes::Route;
use crate::search::SearchResult;
use crate::text::{chars_of, contains_text, find_from, lowercase, occurs_at, same_text, to_lower, trim_text, trimmed};
use crate::tree::texts;
use vstd::prelude::*;
use vstd::string::StringExecFns;
use vstd::utf8::encode_utf8;

verus! {

/// How many files the palette lists at most.
pub const MAX_FILES: usize = 10;

/// The volume in which a search result lies that names none.
pub const DEFAULT_VOLUME: &'static str = "default";

/// What choosing an entry of the palette does.
pub enum CommandType {
    /// Go to the home page.
    GoHome,
    /// Switch between the light and the dark theme.
    ToggleTheme,
    /// Ask for a path and open a new file there.
    CreateFile,
    /// Open a file of the current volume.
    OpenFile { volume: String, path: String },
    /// Open a page that the search found.
    OpenResult { path: String, volume: Option<String>, snippet: Option<String> },
}

/// One entry of the palette.
pub struct CommandItem {
    pub title: String,
    pub description: String,
    pub command_type: CommandType,
}

/// What an entry does, with its texts as sequences of characters.
pub enum CommandKind {
    GoHome,
    ToggleTheme,
    CreateFile,
    OpenFile { volume: Seq<char>, path: Seq<char> },
    OpenResult { path: Seq<char>, volume: Option<Seq<char>>, snippet: Option<Seq<char>> },
}

/// An entry with its texts as sequences of characters.
pub struct Entry {
    pub title: Seq<char>,
    pub description: Seq<char>,
    pub kind: CommandKind,
}

/// The view of an optional text.
pub open spec fn text_of(text: Option<String>) -> Option<Seq<char>> {
    match text {
        Some(t) => Some(t@),
        None => None,
    }
}

impl View for CommandItem {
    type V = Entry;

    open spec fn view(&self) -> Entry {
        Entry {
            title: self.title@,
            description: self.description@,
            kind: match self.command_type {
                CommandType::GoHome => CommandKind::GoHome,
                CommandType::ToggleTheme => CommandKind::ToggleTheme,
                CommandType::CreateFile => CommandKind::CreateFile,
                CommandType::OpenFile { volume, path } => CommandKind::OpenFile {
                    volume: volume@,
                    path: path@,
                },
                CommandType::OpenResult { path, volume, snippet } => CommandKind::OpenResult {
                    path: path@,
                    volume: text_of(volume),
                    snippet: text_of(snippet),
                },
            },
        }
    }
}

/// The entries of a list of items.
pub open spec fn entries(items: Seq<CommandItem>) -> Seq<Entry> {
    items.map_values(|item: CommandItem| item@)
}

/// The command that leads home.
pub open spec fn home_entry() -> Entry {
    Entry {
        title: "Go to Home"@,
        description: "Navigate to the home page"@,
        kind: CommandKind::GoHome,
    }
}

/// The command that switches the theme.
pub open spec fn theme_entry() -> Entry {
    Entry {
        title: "Toggle Theme"@,
        description: "Switch between light and dark mode"@,
        kind: CommandKind::ToggleTheme,
    }
}

/// The command that creates a file.
pub open spec fn create_entry() -> Entry {
    Entry {
        title: "Create New File"@,
        description: "Create a new file in the current volume"@,
        kind: CommandKind::CreateFile,
    }
}

/// The commands that the palette always knows.
pub open spec fn fixed_entries() -> Seq<Entry> {
    seq![home_entry(), theme_entry(), create_entry()]
}

/// Returns the command that leads home.
pub fn home_command() -> (item: CommandItem)
    ensures
        item@ == home_entry(),
{
    CommandItem {
        title: "Go to Home".to_string(),
        description: "Navigate to the home page".to_string(),
        command_type: CommandType::GoHome,
    }
}

/// Returns the command that switches the theme.
pub fn theme_command() -> (item: CommandItem)
    ensures
        item@ == theme_entry(),
{
    CommandItem {
        title: "Toggle Theme".to_string(),
        description: "Switch between light and dark mode".to_string(),
        command_type: CommandType::ToggleTheme,
    }
}

/// Returns the command that creates a file.
pub fn create_command() -> (item: CommandItem)
    ensures
        item@ == create_entry(),
{
    CommandItem {
        title: "Create New File".to_string(),
        description: "Create a new file in the current volume".to_string(),
        command_type: CommandType::CreateFile,
    }
}

/// Returns the commands that the palette always knows.
pub fn fixed_commands() -> (items: Vec<CommandItem>)
    ensures
        entries(items@) == fixed_entries(),
{
    let mut items: Vec<CommandItem> = Vec::new();
    items.push(home_command());
    items.push(theme_command());
    items.push(create_command());
    assert(entries(items@) =~= fixed_entries());
    items
}

/// Whether a text holds the query, case set aside; the query is in lower case.
pub open spec fn holds(text: Seq<char>, query: Seq<char>) -> bool {
    contains_text(lowercase(text), query)
}

/// Tells whether a text holds the query, case set aside.
fn text_holds(text: &str, query: &Vec<char>) -> (yes: bool)
    ensures
        yes == holds(text@, query@),
{
    let lower = to_lower(text);
    let chars = chars_of(lower.as_str());
    match find_from(&chars, query, 0) {
        Some(at) => true,
        None => {
            assert forall|at: int| !occurs_at(chars@, query@, at) by {
                if 0 <= at {
                    assert(!occurs_at(chars@, query@, at));
                }
            }
            false
        },
    }
}

/// An entry where its title or its description holds the query, else nothing.
pub open spec fn kept(entry: Entry, query: Seq<char>) -> Seq<Entry> {
    if holds(entry.title, query) || holds(entry.description, query) {
        seq![entry]
    } else {
        seq![]
    }
}

/// The commands whose title or description holds the query, in their order.
pub open spec fn shown_commands(query: Seq<char>) -> Seq<Entry> {
    kept(home_entry(), query) + kept(theme_entry(), query) + kept(create_entry(), query)
}

/// The entry for a file of the current volume.
pub open spec fn file_entry(path: Seq<char>, volume: Seq<char>) -> Entry {
    Entry {
        title: path,
        description: "File in "@ + volume,
        kind: CommandKind::OpenFile { volume, path },
    }
}

/// The entries for the first `limit` files whose path holds the query.
pub open spec fn shown_files(files: Seq<Seq<char>>, query: Seq<char>, volume: Seq<char>, limit: nat) -> Seq<
    Entry,
>
    decreases files.len(),
{
    if files.len() == 0 || limit == 0 {
        seq![]
    } else if holds(files[0], query) {
        seq![file_entry(files[0], volume)] + shown_files(
            files.drop_first(),
            query,
            volume,
            (limit - 1) as nat,
        )
    } else {
        shown_files(files.drop_first(), query, volume, limit)
    }
}

/// The first text of a list, if it has one.
pub open spec fn first_text(list: Seq<String>) -> Option<Seq<char>> {
    if list.len() > 0 {
        Some(list[0]@)
    } else {
        None
    }
}

/// The entry for a page that the search found: titled with its path, behind
/// the volume's name and a colon where the result names the volume, and
/// described by the first line found.
pub open spec fn result_entry(path: Seq<char>, volume: Option<Seq<char>>, first: Option<Seq<char>>) -> Entry {
    Entry {
        title: match volume {
            Some(v) => v + ": "@ + path,
            None => path,
        },
        description: match first {
            Some(line) => line,
            None => Seq::empty(),
        },
        kind: CommandKind::OpenResult { path, volume, snippet: first },
    }
}

/// The entries for what the search found, in its order.
pub open spec fn shown_results(results: Seq<SearchResult>) -> Seq<Entry> {
    Seq::new(
        results.len(),
        |i: int|
            result_entry(
                results[i].path@,
                text_of(results[i].volume),
                first_text(results[i].matches@),
            ),
    )
}

/// Whether a query is long enough for files to be listed and pages to be
/// searched: more than one byte.
pub open spec fn long_enough(query: Seq<char>) -> bool {
    encode_utf8(query).len() > 1
}

/// Tells whether a query is long enough for files to be listed and pages to
/// be searched.
pub fn should_search(query: &str) -> (yes: bool)
    ensures
        yes == long_enough(query@),
{
    query.as_bytes().len() >= 2
}

/// What the palette lists for a query: the commands that hold it, then up
/// to ten files that hold it, if it is long enough, then what the search
/// found.
pub open spec fn listing(
    query: Seq<char>,
    files: Seq<Seq<char>>,
    volume: Seq<char>,
    results: Seq<SearchResult>,
) -> Seq<Entry> {
    shown_commands(lowercase(query)) + (if long_enough(query) {
        shown_files(files, lowercase(query), volume, MAX_FILES as nat)
    } else {
        seq![]
    }) + shown_results(results)
}

/// Adds one item to a list, with its entry.
fn push_item(out: &mut Vec<CommandItem>, item: CommandItem)
    ensures
        final(out)@ == old(out)@.push(item),
        entries(final(out)@) == entries(old(out)@).push(item@),
{
    out.push(item);
    assert(entries(out@) =~= entries(old(out)@).push(item@));
}

/// Clones an optional text.
fn clone_text(text: &Option<String>) -> (copy: Option<String>)
    ensures
        text_of(copy) == text_of(*text),
{
    match text {
        Some(t) => Some(t.clone()),
        None => None,
    }
}

/// Lists the entries of the palette for a query. `files` are the files of
/// the current volume and `results` what the search found.
pub fn filter_items(
    query: &str,
    files: &Vec<String>,
    volume: &str,
    results: &Vec<SearchResult>,
) -> (items: Vec<CommandItem>)
    ensures
        entries(items@) == listing(query@, texts(files@), volume@, results@),
{
    let lowered = to_lower(query);
    let needle = chars_of(lowered.as_str());
    let mut items: Vec<CommandItem> = Vec::new();
    assert(entries(items@) =~= Seq::<Entry>::empty());
    let ghost commands = shown_commands(needle@);
    let home = home_command();
    let theme = theme_command();
    let create = create_command();
    if text_holds(home.title.as_str(), &needle) || text_holds(home.description.as_str(), &needle) {
        push_item(&mut items, home);
    }
    assert(entries(items@) =~= kept(home_entry(), needle@));
    if text_holds(theme.title.as_str(), &needle) || text_holds(
        theme.description.as_str(),
        &needle,
    ) {
        push_item(&mut items, theme);
    }
    assert(entries(items@) =~= kept(home_entry(), needle@) + kept(theme_entry(), needle@));
    if text_holds(create.title.as_str(), &needle) || text_holds(
        create.description.as_str(),
        &needle,
    ) {
        push_item(&mut items, create);
    }
    assert(entries(items@) =~= commands);
    if should_search(query) {
        let mut i: usize = 0;
        let mut listed: usize = 0;
        assert(texts(files@).skip(0) =~= texts(files@));
        while i < files.len() && listed < MAX_FILES
            invariant
                i <= files.len(),
                listed <= MAX_FILES,
                needle@ == lowercase(query@),
                entries(items@) + shown_files(
                    texts(files@).skip(i as int),
                    needle@,
                    volume@,
                    (MAX_FILES - listed) as nat,
                ) == commands + shown_files(texts(files@), needle@, volume@, MAX_FILES as nat),
            decreases files.len() - i,
        {
            let ghost tail = texts(files@).skip(i as int);
            let ghost limit = (MAX_FILES - listed) as nat;
            let path = &files[i];
            proof {
                assert(tail[0] == path@);
                assert(tail.drop_first() =~= texts(files@).skip(i + 1));
            }
            if text_holds(path.as_str(), &needle) {
                let mut description = String::from_str("File in ");
                description.append(volume);
                let ghost before = entries(items@);
                push_item(
                    &mut items,
                    CommandItem {
                        title: path.clone(),
                        description,
                        command_type: CommandType::OpenFile {
                            volume: volume.to_owned(),
                            path: path.clone(),
                        },
                    },
                );
                proof {
                    assert(entries(items@) + shown_files(
                        texts(files@).skip(i + 1),
                        needle@,
                        volume@,
                        (limit - 1) as nat,
                    ) =~= before + shown_files(tail, needle@, volume@, limit));
                }
                listed += 1;
            }
            i += 1;
        }
        assert(entries(items@) =~= commands + shown_files(
            texts(files@),
            needle@,
            volume@,
            MAX_FILES as nat,
        ));
    }
    let ghost head = entries(items@);
    let mut k: usize = 0;
    while k < results.len()
        invariant
            k <= results.len(),
            entries(items@) == head + shown_results(results@).take(k as int),
        decreases results.len() - k,
    {
        let result = &results[k];
        let first: Option<String> = if result.matches.len() > 0 {
            Some(result.matches[0].clone())
        } else {
            None
        };
        let title = match &result.volume {
            Some(v) => {
                let mut title = v.clone();
                title.append(": ");
                title.append(result.path.as_str());
                title
            },
            None => result.path.clone(),
        };
        let description = match &first {
            Some(line) => line.clone(),
            None => String::new(),
        };
        push_item(
            &mut items,
            CommandItem {
                title,
                description,
                command_type: CommandType::OpenResult {
                    path: result.path.clone(),
                    volume: clone_text(&result.volume),
                    snippet: first,
                },
            },
        );
        assert(entries(items@) =~= head + shown_results(results@).take(k + 1));
        k += 1;
    }
    assert(shown_results(results@).take(k as int) =~= shown_results(results@));
    items
}

/// What a key does in the palette.
#[derive(Clone, Copy, Debug, PartialEq, Eq, Structural)]
pub enum PaletteStep {
    /// Another entry is selected.
    Select(usize),
    /// The selected entry is chosen and the palette closes.
    Run(usize),
    /// The palette closes.
    Close,
    /// The key is taken and nothing happens.
    Stay,
    /// The key is not the palette's.
    Pass,
}

/// What a key does while the entry `selected` of `count` is selected: the
/// arrows move the selection as far as there are entries, Enter chooses the
/// selected entry if there is one, and Escape closes the palette.
pub open spec fn key_step(key: Seq<char>, selected: usize, count: usize) -> PaletteStep {
    if key == "ArrowDown"@ {
        if selected + 1 < count {
            PaletteStep::Select((selected + 1) as usize)
        } else {
            PaletteStep::Stay
        }
    } else if key == "ArrowUp"@ {
        if selected > 0 {
            PaletteStep::Select((selected - 1) as usize)
        } else {
            PaletteStep::Stay
        }
    } else if key == "Enter"@ {
        if selected < count {
            PaletteStep::Run(selected)
        } else {
            PaletteStep::Stay
        }
    } else if key == "Escape"@ {
        PaletteStep::Close
    } else {
        PaletteStep::Pass
    }
}

/// Says what a key does in the palette.
pub fn palette_key(key: &str, selected: usize, count: usize) -> (step: PaletteStep)
    ensures
        step == key_step(key@, selected, count),
{
    if same_text(key, "ArrowDown") {
        if selected < usize::MAX && selected + 1 < count {
            PaletteStep::Select(selected + 1)
        } else {
            PaletteStep::Stay
        }
    } else if same_text(key, "ArrowUp") {
        if selected > 0 {
            PaletteStep::Select(selected - 1)
        } else {
            PaletteStep::Stay
        }
    } else if same_text(key, "Enter") {
        if selected < count {
            PaletteStep::Run(selected)
        } else {
            PaletteStep::Stay
        }
    } else if same_text(key, "Escape") {
        PaletteStep::Close
    } else {
        PaletteStep::Pass
    }
}

/// Where choosing an entry leads, as volume and path; nothing for the home
/// page and for an entry that leads nowhere.
pub open spec fn target_of(kind: CommandKind) -> Option<(Seq<char>, Seq<char>)> {
    match kind {
        CommandKind::OpenFile { volume, path } => Some((volume, path)),
        CommandKind::OpenResult { path, volume, snippet } => Some(
            (
                match volume {
                    Some(v) => v,
                    None => "default"@,
                },
                path,
            ),
        ),
        _ => None,
    }
}

/// Says where choosing an entry leads: home, to a page, or nowhere for an
/// entry that does something else. A search result that names no volume
/// lies in the default volume.
pub fn destination(item: &CommandItem) -> (route: Option<Route>)
    ensures
        match route {
            Some(Route::Wiki { volume, path }) => target_of(item@.kind) == Some((volume@, path@)),
            Some(Route::Home) => item@.kind is GoHome,
            Some(Route::NotFound) => false,
            None => item@.kind is ToggleTheme || item@.kind is CreateFile,
        },
{
    match &item.command_type {
        CommandType::GoHome => Some(Route::Home),
        CommandType::ToggleTheme => None,
        CommandType::CreateFile => None,
        CommandType::OpenFile { volume, path } => Some(
            Route::Wiki { volume: volume.clone(), path: path.clone() },
        ),
        CommandType::OpenResult { path, volume, snippet } => {
            let volume = match volume {
                Some(v) => v.clone(),
                None => DEFAULT_VOLUME.to_string(),
            };
            Some(Route::Wiki { volume, path: path.clone() })
        },
    }
}

/// The path of a new file from what was typed: what was typed, trimmed, or
/// nothing where nothing was typed or only white space.
pub open spec fn typed_path(input: Option<&str>) -> Option<Seq<char>> {
    match input {
        Some(text) => if trimmed(text@).len() > 0 {
            Some(trimmed(text@))
        } else {
            None
        },
        None => None,
    }
}

/// Makes the path of a new file from what was typed.
pub fn new_file_path(input: Option<&str>) -> (path: Option<String>)
    ensures
        text_of(path) == typed_path(input),
{
    match input {
        Some(text) => {
            let path = trim_text(text);
            if path.as_str().is_empty() {
                None
            } else {
                Some(path)
            }
        },
        None => None,
    }
}

} // verus!
