//! Lines of text in several tones.
use vstd::prelude::*;

verus! {

/// What a piece of text is, and so how it is painted.
#[derive(Debug, Clone, Copy, PartialEq, Eq, Structural)]
pub enum Tone {
    Raw,
    Text,
    Muted,
    Heading,
    Accent,
    AccentBold,
    Border,
    BorderFocused,
    StatusOk,
    StatusWarn,
    StatusErr,
    KeyHint,
}

/// A piece of text in one tone.
#[derive(Debug)]
pub struct Span {
    pub text: String,
    pub tone: Tone,
}

/// A piece of text and its tone.
pub type SpanView = (Seq<char>, Tone);

/// The pieces of a line.
pub open spec fn spans(line: Seq<Span>) -> Seq<SpanView> {
    Seq::new(line.len(), |i: int| (line[i].text@, line[i].tone))
}

/// Adds a piece to a line.
pub(crate) fn put(line: &mut Vec<Span>, text: &str, tone: Tone)
    ensures
        spans(final(line)@) == spans(old(line)@).push((text@, tone)),
{
    line.push(Span { text: text.to_owned(), tone });
    assert(spans(line@) =~= spans(old(line)@).push((text@, tone)));
}

/// A line without pieces.
pub(crate) fn blank() -> (r: Vec<Span>)
    ensures
        spans(r@) == Seq::<SpanView>::empty(),
{
    let r: Vec<Span> = Vec::new();
    assert(spans(r@) =~= Seq::<SpanView>::empty());
    r
}

/// A line of one piece.
pub(crate) fn one(text: &str, tone: Tone) -> (r: Vec<Span>)
    ensures
        spans(r@) == seq![(text@, tone)],
{
    let mut line = blank();
    put(&mut line, text, tone);
    assert(spans(line@) =~= seq![(text@, tone)]);
    line
}

/// A key and what it does, as a line shows them.
pub open spec fn hint(key: Seq<char>, action: Seq<char>) -> Seq<SpanView> {
    seq![(key, Tone::KeyHint), (action, Tone::Text)]
}

/// A lesser key and what it does, as a line shows them.
pub open spec fn minor_hint(key: Seq<char>, action: Seq<char>) -> Seq<SpanView> {
    seq![(key, Tone::Muted), (action, Tone::Muted)]
}

/// The space between two hints.
pub open spec fn gap() -> Seq<SpanView> {
    seq![("  "@, Tone::Text)]
}

/// The space that a line of hints begins with.
pub open spec fn margin() -> Seq<SpanView> {
    seq![(" "@, Tone::Text)]
}

/// The bar between the hints of a view and those that are always there.
pub open spec fn divider() -> Seq<SpanView> {
    seq![("  |  "@, Tone::Border)]
}

pub(crate) fn put_margin(line: &mut Vec<Span>)
    ensures
        spans(final(line)@) == spans(old(line)@) + margin(),
{
    put(line, " ", Tone::Text);
    assert(spans(line@) =~= spans(old(line)@) + margin());
}

pub(crate) fn put_gap(line: &mut Vec<Span>)
    ensures
        spans(final(line)@) == spans(old(line)@) + gap(),
{
    put(line, "  ", Tone::Text);
    assert(spans(line@) =~= spans(old(line)@) + gap());
}

pub(crate) fn put_divider(line: &mut Vec<Span>)
    ensures
        spans(final(line)@) == spans(old(line)@) + divider(),
{
    put(line, "  |  ", Tone::Border);
    assert(spans(line@) =~= spans(old(line)@) + divider());
}

pub(crate) fn put_hint(line: &mut Vec<Span>, key: &str, action: &str)
    ensures
        spans(final(line)@) == spans(old(line)@) + hint(key@, action@),
{
    put(line, key, Tone::KeyHint);
    put(line, action, Tone::Text);
    assert(spans(line@) =~= spans(old(line)@) + hint(key@, action@));
}

pub(crate) fn put_minor_hint(line: &mut Vec<Span>, key: &str, action: &str)
    ensures
        spans(final(line)@) == spans(old(line)@) + minor_hint(key@, action@),
{
    put(line, key, Tone::Muted);
    put(line, action, Tone::Muted);
    assert(spans(line@) =~= spans(old(line)@) + minor_hint(key@, action@));
}

} // verus!
