//! Wiki links in page text: `[[Page]]` and `[[Page|Label]]`.

use crate::text::{chars_of, find_from, find_in, first_index, lemma_first_index, trim_range, trimmed};
use std::collections::VecDeque;
use vstd::prelude::*;
use vstd::string::StringExecFns;

verus! {

/// An event of the Markdown parser. The library hands such events on and
/// never looks inside one.
#[verifier::external_type_specification]
#[verifier::external_body]
pub struct ExEvent<'a>(pulldown_cmark::Event<'a>);

/// What the library reads of an event: a run of text, the two ends of a link
/// that it made itself, or an event of the Markdown parser that it hands on.
pub enum WikiEvent<'a> {
    Text(String),
    LinkStart(String),
    LinkEnd,
    Other(pulldown_cmark::Event<'a>),
}

/// A `WikiEvent` with its texts as sequences of characters.
pub enum Shape<'a> {
    Text(Seq<char>),
    LinkStart(Seq<char>),
    LinkEnd,
    Other(pulldown_cmark::Event<'a>),
}

impl<'a> View for WikiEvent<'a> {
    type V = Shape<'a>;

    open spec fn view(&self) -> Shape<'a> {
        match self {
            WikiEvent::Text(t) => Shape::Text(t@),
            WikiEvent::LinkStart(u) => Shape::LinkStart(u@),
            WikiEvent::LinkEnd => Shape::LinkEnd,
            WikiEvent::Other(e) => Shape::Other(*e),
        }
    }
}

/// The shapes of a sequence of events.
pub open spec fn shapes<'a>(events: Seq<WikiEvent<'a>>) -> Seq<Shape<'a>> {
    events.map_values(|e: WikiEvent<'a>| e@)
}

/// The mark that opens a wiki link.
pub open spec fn open_mark() -> Seq<char> {
    seq!['[', '[']
}

/// The mark that closes a wiki link.
pub open spec fn close_mark() -> Seq<char> {
    seq![']', ']']
}

/// The address a link leads to: the page `link`, trimmed, in `volume`.
pub open spec fn link_target(volume: Seq<char>, link: Seq<char>) -> Seq<char> {
    seq!['/', 'w', 'i', 'k', 'i', '/'] + volume + seq!['/'] + trimmed(link)
}

/// The page and the label that stand between the marks of a link: the parts
/// before and after the first `|`, or the whole twice where there is none.
pub open spec fn link_parts(content: Seq<char>) -> (Seq<char>, Seq<char>) {
    match first_index(content, seq!['|'], 0) {
        Some(bar) => (content.take(bar), content.skip(bar + 1)),
        None => (content, content),
    }
}

/// The three events that a link with the given content becomes.
pub open spec fn link_shapes<'a>(content: Seq<char>, volume: Seq<char>) -> Seq<Shape<'a>> {
    let (link, label) = link_parts(content);
    seq![Shape::LinkStart(link_target(volume, link)), Shape::Text(trimmed(label)), Shape::LinkEnd]
}

/// The first link from `from` on: where its opening mark and the first
/// closing mark behind that stand. A mark that is never closed is no link.
pub open spec fn next_link(text: Seq<char>, from: int) -> Option<(int, int)> {
    match first_index(text, open_mark(), from) {
        Some(open) => match first_index(text, close_mark(), open) {
            Some(close) => Some((open, close)),
            None => None,
        },
        None => None,
    }
}

/// The events of `text` from `from` on: text up to each link, the link, and
/// at last the text that is left, if any.
pub open spec fn shapes_from<'a>(text: Seq<char>, from: int, volume: Seq<char>) -> Seq<Shape<'a>>
    decreases text.len() - from,
{
    match next_link(text, from) {
        Some((open, close)) => if from <= open && open + 2 <= close && close + 2 <= text.len() {
            let before: Seq<Shape<'a>> = if open > from {
                seq![Shape::Text(text.subrange(from, open))]
            } else {
                seq![]
            };
            before + link_shapes(text.subrange(open + 2, close), volume) + shapes_from(
                text,
                close + 2,
                volume,
            )
        } else {
            seq![]
        },
        None => if from < text.len() {
            seq![Shape::Text(text.subrange(from, text.len() as int))]
        } else {
            seq![]
        },
    }
}

/// The events that a run of text becomes. Text without a link stays one
/// event, even where it is empty.
pub open spec fn expanded<'a>(text: Seq<char>, volume: Seq<char>) -> Seq<Shape<'a>> {
    if next_link(text, 0) is None {
        seq![Shape::Text(text)]
    } else {
        shapes_from(text, 0, volume)
    }
}

/// Adds one event to a list, with its shape.
fn push_event<'a>(out: &mut Vec<WikiEvent<'a>>, event: WikiEvent<'a>)
    ensures
        final(out)@ == old(out)@.push(event),
        shapes(final(out)@) == shapes(old(out)@).push(event@),
{
    out.push(event);
    assert(shapes(out@) =~= shapes(old(out)@).push(event@));
}

/// Adds the three events of the link whose content is `chars[from..to]`.
fn push_link<'a>(
    out: &mut Vec<WikiEvent<'a>>,
    text: &str,
    chars: &Vec<char>,
    from: usize,
    to: usize,
    volume: &str,
)
    requires
        chars@ == text@,
        from <= to <= chars.len(),
    ensures
        shapes(final(out)@) == shapes(old(out)@) + link_shapes(
            chars@.subrange(from as int, to as int),
            volume@,
        ),
{
    let ghost content = chars@.subrange(from as int, to as int);
    let bar_mark: Vec<char> = vec!['|'];
    assert(bar_mark@ =~= seq!['|']);
    let found = find_in(chars, &bar_mark, from, to);
    let (link_ends, label_ends) = match found {
        Some(bar) => {
            assert(content.take(bar as int) =~= chars@.subrange(from as int, from + bar));
            assert(content.skip(bar + 1) =~= chars@.subrange(from + bar + 1, to as int));
            (trim_range(chars, from, from + bar), trim_range(chars, from + bar + 1, to))
        },
        None => (trim_range(chars, from, to), trim_range(chars, from, to)),
    };
    let link = text.substring_char(link_ends.0, link_ends.1);
    let label = text.substring_char(label_ends.0, label_ends.1);
    let mut url = String::from_str("/wiki/");
    url.append(volume);
    url.append("/");
    url.append(link);
    proof {
        reveal_strlit("/wiki/");
        reveal_strlit("/");
        assert("/wiki/"@ =~= seq!['/', 'w', 'i', 'k', 'i', '/']);
        assert("/"@ =~= seq!['/']);
        assert(url@ == link_target(volume@, link_parts(content).0));
        assert(label@ == trimmed(link_parts(content).1));
    }
    let ghost before = shapes(out@);
    push_event(out, WikiEvent::LinkStart(url));
    push_event(out, WikiEvent::Text(label.to_owned()));
    push_event(out, WikiEvent::LinkEnd);
    assert(shapes(out@) =~= before + link_shapes(content, volume@));
}

/// Turns a run of text into events: each `[[page]]` or `[[page|label]]`
/// becomes a link into `volume`, and the text between the links stays text.
pub fn expand_text<'a>(text: &str, volume: &str) -> (out: Vec<WikiEvent<'a>>)
    ensures
        shapes(out@) == expanded::<'a>(text@, volume@),
        out.len() > 0,
{
    let chars = chars_of(text);
    let opening: Vec<char> = vec!['[', '['];
    let closing: Vec<char> = vec![']', ']'];
    assert(opening@ =~= open_mark());
    assert(closing@ =~= close_mark());
    let mut out: Vec<WikiEvent<'a>> = Vec::new();
    let mut start: usize = 0;
    let mut found = false;
    assert(shapes(out@) =~= Seq::<Shape<'a>>::empty());
    loop
        invariant
            chars@ == text@,
            opening@ == open_mark(),
            closing@ == close_mark(),
            start <= chars.len(),
            found ==> next_link(chars@, 0) is Some && out.len() > 0,
            !found ==> start == 0 && out.len() == 0,
            shapes(out@) + shapes_from::<'a>(chars@, start as int, volume@) == shapes_from::<'a>(
                chars@,
                0,
                volume@,
            ),
        ensures
            chars@ == text@,
            start <= chars.len(),
            found ==> next_link(chars@, 0) is Some && out.len() > 0,
            !found ==> start == 0 && out.len() == 0,
            next_link(chars@, start as int) is None,
            shapes(out@) + shapes_from::<'a>(chars@, start as int, volume@) == shapes_from::<'a>(
                chars@,
                0,
                volume@,
            ),
        decreases chars.len() - start,
    {
        let open = match find_from(&chars, &opening, start) {
            Some(open) => open,
            None => {
                proof {
                    lemma_first_index(chars@, open_mark(), start as int, 0);
                }
                break ;
            },
        };
        let close = match find_from(&chars, &closing, open) {
            Some(close) => close,
            None => {
                proof {
                    lemma_first_index(chars@, close_mark(), open as int, 0);
                }
                break ;
            },
        };
        proof {
            assert(chars@.subrange(open as int, open + 2)[0] == '[');
            assert(chars@.subrange(open as int, open + 2)[1] == '[');
            assert(chars@.subrange(close as int, close + 2)[0] == ']');
            assert(chars@.subrange(close as int, close + 2)[1] == ']');
            if close == open + 1 {
                assert(chars@[close as int] == '[');
            }
            assert(open + 2 <= close);
            assert(next_link(chars@, start as int) == Some((open as int, close as int)));
            if start == 0 {
                assert(next_link(chars@, 0) is Some);
            }
        }
        let ghost done = shapes(out@);
        if open > start {
            let before = text.substring_char(start, open);
            push_event(&mut out, WikiEvent::Text(before.to_owned()));
        }
        push_link(&mut out, text, &chars, open + 2, close, volume);
        proof {
            let before: Seq<Shape<'a>> = if open > start {
                seq![Shape::Text(chars@.subrange(start as int, open as int))]
            } else {
                seq![]
            };
            assert(shapes(out@) =~= done + (before + link_shapes(
                chars@.subrange(open + 2, close as int),
                volume@,
            )));
            assert(shapes_from::<'a>(chars@, start as int, volume@) == before + link_shapes(
                chars@.subrange(open + 2, close as int),
                volume@,
            ) + shapes_from::<'a>(chars@, close + 2, volume@));
            assert(shapes(out@) + shapes_from::<'a>(chars@, close + 2, volume@) =~= done
                + shapes_from::<'a>(chars@, start as int, volume@));
        }
        start = close + 2;
        found = true;
    }
    if found {
        if start < chars.len() {
            let rest = text.substring_char(start, chars.len());
            push_event(&mut out, WikiEvent::Text(rest.to_owned()));
        }
        assert(shapes(out@) =~= shapes_from::<'a>(chars@, 0, volume@));
    } else {
        push_event(&mut out, WikiEvent::Text(text.to_owned()));
        assert(shapes(out@) =~= seq![Shape::Text(text@)]);
    }
    out
}

/// The Markdown parser whose events are read for wiki links.
#[verifier::external_type_specification]
#[verifier::external_body]
#[verifier::reject_recursive_types(F)]
pub struct ExParser<'a, F>(pulldown_cmark::Parser<'a, F>);

/// The way in which the Markdown parser treats a link without a target.
#[verifier::external_type_specification]
#[verifier::external_body]
pub struct ExDefaultBrokenLinkCallback(pulldown_cmark::DefaultBrokenLinkCallback);

/// The events that a Markdown parser has yet to yield, in order: each text
/// event as `Shape::Text`, every other event as `Shape::Other`.
pub uninterp spec fn pending(parser: pulldown_cmark::Parser<'_>) -> Seq<Shape<'_>>;

/// `Parser::next` of pulldown-cmark: takes the next event from the parser.
/// The parser yields its events one by one and, once it has none left, none
/// ever after. A text event comes back as `WikiEvent::Text` with the same
/// characters, any other one untouched as `WikiEvent::Other`.
#[verifier::external_body]
fn next_token<'a>(parser: &mut pulldown_cmark::Parser<'a>) -> (token: Option<WikiEvent<'a>>)
    ensures
        match token {
            Some(t) => {
                &&& pending(*old(parser)).len() > 0
                &&& t@ == pending(*old(parser))[0]
                &&& t is Text || t is Other
                &&& pending(*final(parser)) == pending(*old(parser)).drop_first()
            },
            None => pending(*old(parser)).len() == 0 && pending(*final(parser)).len() == 0,
        },
{
    match parser.next() {
        Some(pulldown_cmark::Event::Text(text)) => Some(WikiEvent::Text(text.into_string())),
        Some(other) => Some(WikiEvent::Other(other)),
        None => None,
    }
}

/// How many text events a sequence starts with.
pub open spec fn text_run(source: Seq<Shape<'_>>) -> nat
    decreases source.len(),
{
    if source.len() > 0 && source[0] is Text {
        1 + text_run(source.drop_first())
    } else {
        0
    }
}

/// The characters of the text events that a sequence starts with, joined.
pub open spec fn joined(source: Seq<Shape<'_>>) -> Seq<char>
    decreases source.len(),
{
    if source.len() > 0 && source[0] is Text {
        source[0]->Text_0 + joined(source.drop_first())
    } else {
        Seq::empty()
    }
}

/// What a sequence of parser events becomes: each run of adjacent text
/// events is joined and expanded as one text, every other event stays as
/// it is and where it is.
pub open spec fn rewritten<'a>(source: Seq<Shape<'a>>, volume: Seq<char>) -> Seq<Shape<'a>>
    decreases source.len(),
{
    if source.len() == 0 {
        seq![]
    } else if source[0] is Text {
        let run = text_run(source);
        if 1 <= run <= source.len() {
            expanded::<'a>(joined(source), volume) + rewritten(source.skip(run as int), volume)
        } else {
            seq![]
        }
    } else {
        seq![source[0]] + rewritten(source.drop_first(), volume)
    }
}

/// Reads the events of a Markdown parser and turns wiki links in their text
/// into links.
pub struct WikiLinkParser<'a> {
    parser: pulldown_cmark::Parser<'a>,
    events: VecDeque<WikiEvent<'a>>,
    volume: String,
}

impl<'a> WikiLinkParser<'a> {
    /// The events that were made and not yet handed out.
    pub closed spec fn queued(&self) -> Seq<Shape<'a>> {
        shapes(self.events@)
    }

    /// The events that the Markdown parser has yet to yield.
    pub closed spec fn source(&self) -> Seq<Shape<'a>> {
        pending(self.parser)
    }

    /// The volume into which the links lead.
    pub closed spec fn volume_text(&self) -> Seq<char> {
        self.volume@
    }

    /// All the events that are yet to come, in order.
    pub open spec fn stream(&self) -> Seq<Shape<'a>> {
        self.queued() + rewritten(self.source(), self.volume_text())
    }

    /// Starts reading `parser`; links will lead into `volume`.
    pub fn new(parser: pulldown_cmark::Parser<'a>, volume: String) -> (reader: Self)
        ensures
            reader.queued() == Seq::<Shape<'a>>::empty(),
            reader.source() == pending(parser),
            reader.volume_text() == volume@,
            reader.stream() == rewritten(pending(parser), volume@),
    {
        let reader = WikiLinkParser { parser, events: VecDeque::new(), volume };
        assert(reader.queued() =~= Seq::<Shape<'a>>::empty());
        reader
    }

    /// Hands out the next event of the stream, or `None` at its end.
    pub fn next(&mut self) -> (event: Option<WikiEvent<'a>>)
        ensures
            match event {
                Some(e) => {
                    &&& old(self).stream().len() > 0
                    &&& e@ == old(self).stream()[0]
                    &&& final(self).stream() == old(self).stream().drop_first()
                },
                None => old(self).stream().len() == 0 && final(self).stream().len() == 0,
            },
            final(self).volume_text() == old(self).volume_text(),
    {
        let ghost rest = rewritten(self.source(), self.volume_text());
        if let Some(event) = self.events.pop_front() {
            proof {
                assert(self.queued() =~= old(self).queued().drop_first());
                assert(self.stream() =~= old(self).stream().drop_first());
            }
            return Some(event);
        }
        assert(old(self).queued() =~= Seq::<Shape<'a>>::empty());
        assert(old(self).stream() =~= rest);
        let ghost source = pending(self.parser);
        let first = next_token(&mut self.parser);
        match first {
            None => {
                assert(self.queued() =~= Seq::<Shape<'a>>::empty());
                None
            },
            Some(WikiEvent::Text(text)) => {
                let mut buffer = text;
                let mut follower: Option<WikiEvent<'a>> = None;
                let ghost mut taken: int = 1;
                assert(source.skip(1) =~= source.drop_first());
                loop
                    invariant_except_break
                        follower is None,
                        pending(self.parser) == source.skip(taken),
                        buffer@ + joined(source.skip(taken)) == joined(source),
                        taken + text_run(source.skip(taken)) == text_run(source),
                    invariant
                        1 <= taken <= source.len(),
                        self.volume == old(self).volume,
                        self.events@.len() == 0,
                    ensures
                        1 <= taken <= source.len(),
                        buffer@ == joined(source),
                        taken == text_run(source),
                        self.volume == old(self).volume,
                        self.events@.len() == 0,
                        match follower {
                            Some(f) => {
                                &&& taken < source.len()
                                &&& f@ == source[taken]
                                &&& f is Other
                                &&& pending(self.parser) == source.skip(taken + 1)
                            },
                            None => taken == source.len() && pending(self.parser).len() == 0,
                        },
                    decreases pending(self.parser).len(),
                {
                    let ghost before = buffer@;
                    match next_token(&mut self.parser) {
                        Some(WikiEvent::Text(more)) => {
                            buffer.append(more.as_str());
                            proof {
                                assert(source.skip(taken).drop_first() =~= source.skip(taken + 1));
                                assert(buffer@ + joined(source.skip(taken + 1)) =~= before + joined(
                                    source.skip(taken),
                                ));
                                taken = taken + 1;
                            }
                        },
                        Some(other) => {
                            proof {
                                assert(source.skip(taken).drop_first() =~= source.skip(taken + 1));
                                assert(buffer@ =~= buffer@ + joined(source.skip(taken)));
                            }
                            follower = Some(other);
                            break ;
                        },
                        None => {
                            proof {
                                assert(buffer@ =~= buffer@ + joined(source.skip(taken)));
                            }
                            break ;
                        },
                    }
                }
                let mut made = expand_text(buffer.as_str(), self.volume.as_str());
                let ghost all = made@;
                let ghost drained = pending(self.parser);
                while made.len() > 0
                    invariant
                        made@.len() <= all.len(),
                        made@ == all.take(made@.len() as int),
                        self.events@ == all.skip(made@.len() as int),
                        self.volume == old(self).volume,
                        pending(self.parser) == drained,
                    decreases made.len(),
                {
                    let ghost n = made@.len() as int;
                    let last = made.pop().unwrap();
                    self.events.push_front(last);
                    assert(self.events@ =~= all.skip(n - 1));
                    assert(made@ =~= all.take(n - 1));
                }
                assert(self.events@ =~= all);
                proof {
                    assert(rest == expanded::<'a>(joined(source), self.volume@) + rewritten(
                        source.skip(taken),
                        self.volume@,
                    ));
                }
                match follower {
                    Some(f) => {
                        proof {
                            assert(source.skip(taken).drop_first() =~= source.skip(taken + 1));
                            assert(source.skip(taken)[0] == source[taken]);
                            assert(rewritten(source.skip(taken), self.volume@) == seq![f@]
                                + rewritten(source.skip(taken + 1), self.volume@));
                        }
                        self.events.push_back(f);
                        assert(shapes(self.events@) =~= shapes(all).push(f@));
                        assert(self.stream() =~= rest);
                    },
                    None => {
                        assert(source.skip(taken) =~= Seq::<Shape<'a>>::empty());
                        assert(self.stream() =~= rest);
                    },
                }
                let ghost full = self.events@;
                let event = self.events.pop_front();
                proof {
                    assert(self.queued() =~= shapes(full).drop_first());
                    assert(self.stream() =~= rest.drop_first());
                }
                event
            },
            Some(other) => {
                proof {
                    assert(self.queued() =~= Seq::<Shape<'a>>::empty());
                    assert(self.stream() =~= rest.drop_first());
                }
                Some(other)
            },
        }
    }
}

} // verus!
