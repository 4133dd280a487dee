//! Full-text search in the pages of a volume.

use crate::text::{
    chars_of, contains_text, find_from, first_index, lemma_first_index, lowercase, occurs_at,
    to_lower, trim_range, trimmed,
};
use crate::tree::texts;
use vstd::prelude::*;

verus! {

/// How many lines of a page are shown with it at most.
pub const MAX_MATCHES: usize = 3;

/// What a search asks for.
pub struct SearchParams {
    pub q: String,
}

/// A page that holds the query, with the lines that do, and the volume in
/// which it lies where the search went over several.
pub struct SearchResult {
    pub path: String,
    pub matches: Vec<String>,
    pub volume: Option<String>,
}

/// Whether a file is a page: its name ends in `.md` behind at least one
/// other character.
pub open spec fn page_name(name: Seq<char>) -> bool {
    name.len() > 3 && occurs_at(name, seq!['.', 'm', 'd'], name.len() - 3)
}

/// Tells whether a file is a page, by its name.
pub fn is_page(name: &str) -> (yes: bool)
    ensures
        yes == page_name(name@),
{
    let chars = chars_of(name);
    if chars.len() <= 3 {
        return false;
    }
    let n = chars.len();
    let hit = chars[n - 3] == '.' && chars[n - 2] == 'm' && chars[n - 1] == 'd';
    proof {
        let tail = chars@.subrange(n - 3, n as int);
        if hit {
            assert(tail =~= seq!['.', 'm', 'd']);
        } else {
            assert(tail[0] == chars@[n - 3] && tail[1] == chars@[n - 2] && tail[2] == chars@[n - 1]);
        }
    }
    hit
}

/// A line without the carriage return at its end, if it has one.
pub open spec fn without_return(line: Seq<char>) -> Seq<char> {
    if line.len() > 0 && line.last() == '\r' {
        line.drop_last()
    } else {
        line
    }
}

/// The lines of a text from `from` on. A line ends at a line feed, which is
/// no part of it, nor is a carriage return right before the line feed. What
/// stands behind the last line feed is a line if it is not empty.
pub open spec fn lines_from(text: Seq<char>, from: int) -> Seq<Seq<char>>
    decreases text.len() - from,
{
    if from < 0 || from >= text.len() {
        seq![]
    } else {
        match first_index(text, seq!['\n'], from) {
            Some(end) => if from <= end < text.len() {
                seq![without_return(text.subrange(from, end))] + lines_from(text, end + 1)
            } else {
                seq![]
            },
            None => seq![text.subrange(from, text.len() as int)],
        }
    }
}

/// Whether a line holds the query, case set aside; the query is in lower case.
pub open spec fn line_matches(line: Seq<char>, query: Seq<char>) -> bool {
    contains_text(lowercase(line), query)
}

/// The first `limit` lines that hold the query, each trimmed.
pub open spec fn matching(lines: Seq<Seq<char>>, query: Seq<char>, limit: nat) -> Seq<Seq<char>>
    decreases lines.len(),
{
    if lines.len() == 0 || limit == 0 {
        seq![]
    } else if line_matches(lines[0], query) {
        seq![trimmed(lines[0])] + matching(lines.drop_first(), query, (limit - 1) as nat)
    } else {
        matching(lines.drop_first(), query, limit)
    }
}

/// What is shown of a page for a query: its first three lines that hold the
/// query, case set aside, each trimmed.
pub open spec fn snippets(content: Seq<char>, query: Seq<char>) -> Seq<Seq<char>> {
    matching(lines_from(content, 0), lowercase(query), MAX_MATCHES as nat)
}

/// Picks the lines of a page that are shown for a query.
pub fn match_lines(content: &str, query: &str) -> (out: Vec<String>)
    ensures
        texts(out@) == snippets(content@, query@),
        out@.len() <= MAX_MATCHES,
{
    let lowered = to_lower(query);
    let needle = chars_of(lowered.as_str());
    let chars = chars_of(content);
    let feed: Vec<char> = vec!['\n'];
    assert(feed@ =~= seq!['\n']);
    let mut out: Vec<String> = Vec::new();
    let mut from: usize = 0;
    assert(texts(out@) =~= Seq::<Seq<char>>::empty());
    while from < chars.len() && out.len() < MAX_MATCHES
        invariant
            chars@ == content@,
            needle@ == lowercase(query@),
            feed@ == seq!['\n'],
            from <= chars.len(),
            out@.len() <= MAX_MATCHES,
            texts(out@) + matching(
                lines_from(chars@, from as int),
                needle@,
                (MAX_MATCHES - out@.len()) as nat,
            ) == snippets(content@, query@),
        decreases chars.len() - from,
    {
        let ghost lines = lines_from(chars@, from as int);
        let ghost limit = (MAX_MATCHES - out@.len()) as nat;
        let (end, next) = match find_from(&chars, &feed, from) {
            Some(at) => {
                proof {
                    lemma_first_index(chars@, feed@, from as int, at as int);
                    assert(chars@.subrange(at as int, at + 1)[0] == '\n');
                }
                if at > from && chars[at - 1] == '\r' {
                    (at - 1, at + 1)
                } else {
                    (at, at + 1)
                }
            },
            None => {
                proof {
                    lemma_first_index(chars@, feed@, from as int, 0);
                }
                (chars.len(), chars.len())
            },
        };
        let ghost line = chars@.subrange(from as int, end as int);
        proof {
            if next < chars.len() || end < next {
                let whole = chars@.subrange(from as int, next - 1);
                assert(line =~= without_return(whole));
            }
            assert(lines =~= seq![line] + lines_from(chars@, next as int));
            assert(lines[0] == line);
            assert(lines.drop_first() =~= lines_from(chars@, next as int));
        }
        let lower = to_lower(content.substring_char(from, end));
        let lower_chars = chars_of(lower.as_str());
        let hit = match find_from(&lower_chars, &needle, 0) {
            Some(at) => true,
            None => {
                assert forall|at: int| !occurs_at(lower_chars@, needle@, at) by {
                    if 0 <= at {
                        assert(!occurs_at(lower_chars@, needle@, at));
                    }
                }
                false
            },
        };
        assert(hit == line_matches(line, needle@));
        if hit {
            let ends = trim_range(&chars, from, end);
            let ghost before = texts(out@);
            out.push(content.substring_char(ends.0, ends.1).to_owned());
            assert(texts(out@) =~= before.push(trimmed(line)));
            assert(texts(out@) + matching(
                lines_from(chars@, next as int),
                needle@,
                (limit - 1) as nat,
            ) =~= before + matching(lines, needle@, limit));
        }
        from = next;
    }
    assert(texts(out@) =~= snippets(content@, query@));
    out
}

/// The result of a search in one page: the page and the lines to show, or
/// nothing where no line holds the query.
pub fn search_page(path: String, content: &str, query: &str) -> (found: Option<SearchResult>)
    ensures
        match found {
            Some(result) => {
                &&& result.path == path
                &&& result.volume is None
                &&& texts(result.matches@) == snippets(content@, query@)
                &&& result.matches@.len() > 0
            },
            None => snippets(content@, query@).len() == 0,
        },
{
    let matches = match_lines(content, query);
    assert(texts(matches@).len() == matches@.len());
    if matches.len() == 0 {
        None
    } else {
        Some(SearchResult { path, matches, volume: None })
    }
}

/// A file as the search reads it: its name, where it lies in its volume,
/// and its text.
pub struct PageText {
    pub name: String,
    pub path: String,
    pub content: String,
}

/// Whether a file is found: it is a page, and one of its lines holds the query.
pub open spec fn found_in(file: PageText, query: Seq<char>) -> bool {
    page_name(file.name@) && snippets(file.content@, query).len() > 0
}

/// Whether `results` are the results for `files`: one result for each file
/// that is found, in the order of the files, with the lines to show.
pub open spec fn results_for(results: Seq<SearchResult>, files: Seq<PageText>, query: Seq<char>) -> bool
    decreases files.len(),
{
    if files.len() == 0 {
        results.len() == 0
    } else if found_in(files.last(), query) {
        &&& results.len() > 0
        &&& results.last().path@ == files.last().path@
        &&& results.last().volume is None
        &&& texts(results.last().matches@) == snippets(files.last().content@, query)
        &&& results_for(results.drop_last(), files.drop_last(), query)
    } else {
        results_for(results, files.drop_last(), query)
    }
}

/// Searches the files of a volume for a query: each page with a line that
/// holds the query, case set aside, is a result, with up to three such lines.
pub fn search_wiki(files: &Vec<PageText>, query: &str) -> (results: Vec<SearchResult>)
    ensures
        results_for(results@, files@, query@),
{
    let mut results: Vec<SearchResult> = Vec::new();
    let mut i: usize = 0;
    assert(files@.take(0) =~= Seq::<PageText>::empty());
    while i < files.len()
        invariant
            i <= files.len(),
            results_for(results@, files@.take(i as int), query@),
        decreases files.len() - i,
    {
        let file = &files[i];
        let ghost before = results@;
        proof {
            assert(files@.take(i + 1).drop_last() =~= files@.take(i as int));
            assert(files@.take(i + 1).last() == files@[i as int]);
        }
        if is_page(file.name.as_str()) {
            let path = file.path.clone();
            match search_page(path, file.content.as_str(), query) {
                Some(found) => {
                    results.push(found);
                    assert(results@.drop_last() =~= before);
                },
                None => {},
            }
        }
        i += 1;
    }
    assert(files@.take(i as int) =~= files@);
    results
}

} // verus!
