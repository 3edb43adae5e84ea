//! The XML writer of `quick_xml`, as far as build descriptors need it.
//!
//! The writer itself is not verified. What this module states of it was read
//! from its source: which bytes an event adds to the document, and how the
//! events move the indentation.

use quick_xml::events::{BytesEnd, BytesStart, BytesText, Event};
use quick_xml::Writer;
use vstd::prelude::*;
use vstd::seq_lib::lemma_flatten_concat;
use vstd::utf8::{
    encode_utf8,
    encode_utf8_valid_utf8,
    is_leading_byte_width_1,
    length_of_first_scalar,
    partial_valid_utf8,
    partial_valid_utf8_extend_ascii_block,
    pop_first_scalar,
    valid_first_scalar,
    valid_utf8,
    valid_utf8_concat,
};

verus! {

/// `quick_xml::Writer`: what it holds is known only through the functions below.
#[verifier::external_type_specification]
#[verifier::external_body]
#[verifier::reject_recursive_types(W)]
pub struct ExWriter<W>(Writer<W>);

/// `quick_xml::events::BytesStart`, a start tag that is not written yet.
#[verifier::external_type_specification]
#[verifier::external_body]
pub struct ExBytesStart<'a>(BytesStart<'a>);

/// `quick_xml::Error`, the error of the writer. It is handed on unread.
#[verifier::external_type_specification]
#[verifier::external_body]
pub struct ExXmlError(quick_xml::Error);

/// The bytes that a writer has written into its buffer.
pub uninterp spec fn xml_written(w: Writer<Vec<u8>>) -> Seq<u8>;

/// The number of indentation characters that the next line of a writer begins with.
pub uninterp spec fn xml_indent(w: Writer<Vec<u8>>) -> nat;

/// Whether the next tag that a writer writes begins a new line.
pub uninterp spec fn xml_breaks(w: Writer<Vec<u8>>) -> bool;

/// The bytes of a start tag between its angle brackets: its name and its attributes.
pub uninterp spec fn tag_content(tag: BytesStart<'static>) -> Seq<u8>;

/// What the document of a writer depends on: the bytes written, the width of
/// the indentation, and whether the next tag begins a new line.
pub struct XmlState {
    pub bytes: Seq<u8>,
    pub indent: nat,
    pub breaks: bool,
}

/// The state of a writer.
pub open spec fn xml_state(w: Writer<Vec<u8>>) -> XmlState {
    XmlState { bytes: xml_written(w), indent: xml_indent(w), breaks: xml_breaks(w) }
}

/// One thing written into a document.
pub enum XmlEvent {
    /// A start tag with the given content: its name, then its attributes.
    Start(Seq<u8>),
    /// Character data, already escaped.
    Text(Seq<u8>),
    /// The end tag of the given name.
    End(Seq<u8>),
}

/// The byte of `<`.
pub const LESS: u8 = 0x3c;

/// The byte of `>`.
pub const GREATER: u8 = 0x3e;

/// The byte of `&`.
pub const AMPERSAND: u8 = 0x26;

/// The byte of `'`.
pub const APOSTROPHE: u8 = 0x27;

/// The byte of `"`.
pub const QUOTE: u8 = 0x22;

/// The byte of a space.
pub const SPACE: u8 = 0x20;

/// The byte of a line break.
pub const NEWLINE: u8 = 0x0a;

/// The byte of `/`.
pub const SLASH: u8 = 0x2f;

/// The byte of `=`.
pub const EQUALS: u8 = 0x3d;

/// How a byte of character data is written: the five characters that XML
/// reserves as the entities `&lt;`, `&gt;`, `&amp;`, `&apos;` and `&quot;`,
/// any other byte as it is.
pub open spec fn escaped_byte(b: u8) -> Seq<u8> {
    if b == LESS {
        seq![0x26u8, 0x6cu8, 0x74u8, 0x3bu8]
    } else if b == GREATER {
        seq![0x26u8, 0x67u8, 0x74u8, 0x3bu8]
    } else if b == AMPERSAND {
        seq![0x26u8, 0x61u8, 0x6du8, 0x70u8, 0x3bu8]
    } else if b == APOSTROPHE {
        seq![0x26u8, 0x61u8, 0x70u8, 0x6fu8, 0x73u8, 0x3bu8]
    } else if b == QUOTE {
        seq![0x26u8, 0x71u8, 0x75u8, 0x6fu8, 0x74u8, 0x3bu8]
    } else {
        seq![b]
    }
}

/// Character data with each byte escaped.
pub open spec fn xml_escaped(bytes: Seq<u8>) -> Seq<u8> {
    bytes.map_values(|b: u8| escaped_byte(b)).flatten()
}

/// What a tag begins with: a line break and the indentation where the tag
/// begins a new line, nothing otherwise.
pub open spec fn margin(breaks: bool, indent: nat) -> Seq<u8> {
    if breaks {
        seq![NEWLINE] + Seq::new(indent, |i: int| SPACE)
    } else {
        Seq::empty()
    }
}

/// The indentation after a level is closed: four characters less, and never
/// less than none.
pub open spec fn shrunk(indent: nat) -> nat {
    if indent >= 4 {
        (indent - 4) as nat
    } else {
        0
    }
}

/// The state of a writer after one event. A start tag is written behind its
/// margin and opens a level; an end tag closes a level and is written behind
/// the margin of the level it returns to; text is written where the last tag
/// ended, and the tag that follows it stays on its line.
pub open spec fn xml_step(s: XmlState, e: XmlEvent) -> XmlState {
    match e {
        XmlEvent::Start(content) => XmlState {
            bytes: s.bytes + margin(s.breaks, s.indent) + seq![LESS] + content + seq![GREATER],
            indent: s.indent + 4,
            breaks: true,
        },
        XmlEvent::Text(escaped) => XmlState {
            bytes: s.bytes + escaped,
            indent: s.indent,
            breaks: false,
        },
        XmlEvent::End(name) => XmlState {
            bytes: s.bytes + margin(s.breaks, shrunk(s.indent)) + seq![LESS, SLASH] + name
                + seq![GREATER],
            indent: shrunk(s.indent),
            breaks: true,
        },
    }
}

/// The state of a writer after a sequence of events.
pub open spec fn xml_run(s: XmlState, events: Seq<XmlEvent>) -> XmlState
    decreases events.len(),
{
    if events.len() == 0 {
        s
    } else {
        xml_step(xml_run(s, events.drop_last()), events.last())
    }
}

/// The events of an element that holds text and nothing else.
pub open spec fn text_element(name: Seq<u8>, text: Seq<u8>) -> Seq<XmlEvent> {
    seq![XmlEvent::Start(name), XmlEvent::Text(xml_escaped(text)), XmlEvent::End(name)]
}

/// Events written one after another are written as one sequence.
pub(crate) proof fn lemma_run_concat(s: XmlState, first: Seq<XmlEvent>, second: Seq<XmlEvent>)
    ensures
        xml_run(s, first + second) == xml_run(xml_run(s, first), second),
    decreases second.len(),
{
    if second.len() == 0 {
        assert(first + second =~= first);
    } else {
        lemma_run_concat(s, first, second.drop_last());
        assert((first + second).drop_last() =~= first + second.drop_last());
        assert((first + second).last() == second.last());
    }
}

/// One event written is a sequence of one event written.
pub(crate) proof fn lemma_run_one(s: XmlState, e: XmlEvent)
    ensures
        xml_run(s, seq![e]) == xml_step(s, e),
{
    reveal_with_fuel(xml_run, 2);
    assert(seq![e].drop_last() =~= Seq::<XmlEvent>::empty());
}

/// An element that holds text is written as its three events.
pub(crate) proof fn lemma_run_text_element(s: XmlState, name: Seq<u8>, text: Seq<u8>)
    ensures
        xml_run(s, text_element(name, text)) == xml_step(
            xml_step(xml_step(s, XmlEvent::Start(name)), XmlEvent::Text(xml_escaped(text))),
            XmlEvent::End(name),
        ),
        xml_run(s, text_element(name, text)).indent == s.indent,
        xml_run(s, text_element(name, text)).breaks,
{
    reveal_with_fuel(xml_run, 4);
    let events = text_element(name, text);
    let two = seq![XmlEvent::Start(name), XmlEvent::Text(xml_escaped(text))];
    let one = seq![XmlEvent::Start(name)];
    assert(events.drop_last() =~= two);
    assert(two.drop_last() =~= one);
    assert(one.drop_last() =~= Seq::<XmlEvent>::empty());
}

/// Whether what an event carries is valid UTF-8.
pub open spec fn event_valid(e: XmlEvent) -> bool {
    match e {
        XmlEvent::Start(content) => valid_utf8(content),
        XmlEvent::Text(escaped) => valid_utf8(escaped),
        XmlEvent::End(name) => valid_utf8(name),
    }
}

/// Bytes below `0x80` are valid UTF-8, each a character of its own.
pub(crate) proof fn lemma_ascii_valid(bytes: Seq<u8>)
    requires
        forall|i: int| 0 <= i < bytes.len() ==> bytes[i] <= 0x7f,
    ensures
        valid_utf8(bytes),
{
    assert(bytes.subrange(0, 0) =~= Seq::<u8>::empty());
    assert(partial_valid_utf8(bytes, 0));
    assert forall|i: int| 0 <= i < bytes.len() implies #[trigger] is_leading_byte_width_1(
        bytes[i],
    ) by {}
    partial_valid_utf8_extend_ascii_block(bytes, 0, bytes.len() as int);
    assert(bytes.subrange(0, bytes.len() as int) =~= bytes);
}

/// Escaping two pieces escapes each of them.
pub(crate) proof fn lemma_escaped_concat(a: Seq<u8>, b: Seq<u8>)
    ensures
        xml_escaped(a + b) == xml_escaped(a) + xml_escaped(b),
{
    let f = |x: u8| escaped_byte(x);
    assert((a + b).map_values(f) =~= a.map_values(f) + b.map_values(f));
    lemma_flatten_concat(a.map_values(f), b.map_values(f));
}

/// Escaping one byte gives what the byte is written as.
pub(crate) proof fn lemma_escaped_one(b: u8)
    ensures
        xml_escaped(seq![b]) == escaped_byte(b),
{
    let f = |x: u8| escaped_byte(x);
    assert(seq![b].map_values(f) =~= seq![escaped_byte(b)]);
    seq![escaped_byte(b)].lemma_flatten_one_element();
}

/// Bytes from `0x80` on are none of the reserved characters: escaping leaves
/// them as they are.
pub(crate) proof fn lemma_escaped_high(bytes: Seq<u8>)
    requires
        forall|i: int| 0 <= i < bytes.len() ==> bytes[i] >= 0x80,
    ensures
        xml_escaped(bytes) == bytes,
    decreases bytes.len(),
{
    let f = |x: u8| escaped_byte(x);
    if bytes.len() == 0 {
        assert(bytes.map_values(f) =~= Seq::<Seq<u8>>::empty());
        assert(bytes =~= Seq::<u8>::empty());
    } else {
        let shorter = bytes.drop_last();
        lemma_escaped_high(shorter);
        assert(bytes =~= shorter + seq![bytes.last()]);
        lemma_escaped_concat(shorter, seq![bytes.last()]);
        lemma_escaped_one(bytes.last());
    }
}

/// Escaped text is valid UTF-8 where the text is.
pub(crate) proof fn lemma_escaped_valid(bytes: Seq<u8>)
    requires
        valid_utf8(bytes),
    ensures
        valid_utf8(xml_escaped(bytes)),
    decreases bytes.len(),
{
    if bytes.len() == 0 {
        assert(bytes.map_values(|x: u8| escaped_byte(x)) =~= Seq::<Seq<u8>>::empty());
    } else {
        let n = length_of_first_scalar(bytes);
        let first = bytes.subrange(0, n);
        let rest = pop_first_scalar(bytes);
        assert(bytes =~= first + rest);
        lemma_escaped_concat(first, rest);
        lemma_escaped_valid(rest);
        if n == 1 {
            assert(first =~= seq![bytes[0]]);
            lemma_escaped_one(bytes[0]);
            lemma_ascii_valid(escaped_byte(bytes[0]));
        } else {
            assert forall|i: int| 0 <= i < first.len() implies first[i] >= 0x80 by {
                assert(first[i] == bytes[i]);
            }
            lemma_escaped_high(first);
            assert(valid_first_scalar(first));
            assert(pop_first_scalar(first) =~= Seq::<u8>::empty());
            assert(valid_utf8(first)) by {
                reveal_with_fuel(valid_utf8, 2);
            }
        }
        valid_utf8_concat(xml_escaped(first), xml_escaped(rest));
    }
}

/// The margin of a tag is valid UTF-8.
pub(crate) proof fn lemma_margin_valid(breaks: bool, indent: nat)
    ensures
        valid_utf8(margin(breaks, indent)),
{
    lemma_ascii_valid(margin(breaks, indent));
}

/// An event that carries valid UTF-8 keeps the document valid UTF-8.
pub(crate) proof fn lemma_step_valid(s: XmlState, e: XmlEvent)
    requires
        valid_utf8(s.bytes),
        event_valid(e),
    ensures
        valid_utf8(xml_step(s, e).bytes),
{
    match e {
        XmlEvent::Start(content) => {
            lemma_margin_valid(s.breaks, s.indent);
            lemma_ascii_valid(seq![LESS]);
            lemma_ascii_valid(seq![GREATER]);
            let m = margin(s.breaks, s.indent);
            valid_utf8_concat(s.bytes, m);
            valid_utf8_concat(s.bytes + m, seq![LESS]);
            valid_utf8_concat(s.bytes + m + seq![LESS], content);
            valid_utf8_concat(s.bytes + m + seq![LESS] + content, seq![GREATER]);
        },
        XmlEvent::Text(escaped) => {
            valid_utf8_concat(s.bytes, escaped);
        },
        XmlEvent::End(name) => {
            lemma_margin_valid(s.breaks, shrunk(s.indent));
            lemma_ascii_valid(seq![LESS, SLASH]);
            lemma_ascii_valid(seq![GREATER]);
            let m = margin(s.breaks, shrunk(s.indent));
            valid_utf8_concat(s.bytes, m);
            valid_utf8_concat(s.bytes + m, seq![LESS, SLASH]);
            valid_utf8_concat(s.bytes + m + seq![LESS, SLASH], name);
            valid_utf8_concat(s.bytes + m + seq![LESS, SLASH] + name, seq![GREATER]);
        },
    }
}

/// An element that holds text keeps the document valid UTF-8.
pub(crate) proof fn lemma_text_element_valid(s: XmlState, name: Seq<char>, text: Seq<char>)
    requires
        valid_utf8(s.bytes),
    ensures
        valid_utf8(xml_run(s, text_element(encode_utf8(name), encode_utf8(text))).bytes),
{
    let n = encode_utf8(name);
    let t = encode_utf8(text);
    encode_utf8_valid_utf8(name);
    encode_utf8_valid_utf8(text);
    lemma_escaped_valid(t);
    lemma_run_text_element(s, n, t);
    let s1 = xml_step(s, XmlEvent::Start(n));
    lemma_step_valid(s, XmlEvent::Start(n));
    let s2 = xml_step(s1, XmlEvent::Text(xml_escaped(t)));
    lemma_step_valid(s1, XmlEvent::Text(xml_escaped(t)));
    lemma_step_valid(s2, XmlEvent::End(n));
}

/// A writer with an empty buffer that indents by four spaces a level:
/// `Writer::new_with_indent`. Nothing is written yet, nothing is indented and
/// the first tag begins no new line. Writers come from here and nowhere else:
/// what the functions below say of margins and of the growth of the
/// indentation holds of a writer that indents by four spaces.
#[verifier::external_body]
pub(crate) fn new_writer() -> (w: Writer<Vec<u8>>)
    ensures
        xml_written(w) == Seq::<u8>::empty(),
        xml_indent(w) == 0,
        !xml_breaks(w),
{
    Writer::new_with_indent(Vec::new(), b' ', 4)
}

/// A start tag `name` without attributes: `BytesStart::new`. Its content is
/// the name, byte for byte.
#[verifier::external_body]
pub(crate) fn new_tag(name: &str) -> (tag: BytesStart<'static>)
    ensures
        tag_content(tag) == encode_utf8(name@),
{
    BytesStart::new(name.to_owned())
}

/// Adds an attribute to a start tag: `BytesStart::push_attribute`. A space,
/// the key, `="`, the escaped value and `"` are added to the content.
#[verifier::external_body]
pub(crate) fn push_attribute(tag: &mut BytesStart<'static>, key: &str, value: &str)
    ensures
        tag_content(*final(tag)) == tag_content(*old(tag)) + seq![SPACE] + encode_utf8(key@) + seq![
            EQUALS,
            QUOTE,
        ] + xml_escaped(encode_utf8(value@)) + seq![QUOTE],
{
    tag.push_attribute((key, value));
}

/// Writes a start tag: `Writer::write_event` with `Event::Start`. The writer
/// is then in the state that follows the start event. It succeeds: the only
/// failure that `write_event` reports on a start tag is that of writing to
/// what lies beneath, and a byte vector takes every write by appending it.
/// The indentation must have room to grow.
#[verifier::external_body]
pub(crate) fn write_start(w: &mut Writer<Vec<u8>>, tag: BytesStart<'static>) -> (r: Result<
    (),
    quick_xml::Error,
>)
    requires
        xml_indent(*old(w)) + 4 <= usize::MAX,
    ensures
        r is Ok,
        xml_written(*final(w)) == xml_step(
            xml_state(*old(w)),
            XmlEvent::Start(tag_content(tag)),
        ).bytes,
        xml_indent(*final(w)) == xml_indent(*old(w)) + 4,
        xml_breaks(*final(w)),
{
    w.write_event(Event::Start(tag))
}

/// Writes the end tag `name`: `Writer::write_event` with `Event::End`. The
/// writer is then in the state that follows the end event. It succeeds, for
/// the reason given of `write_start`.
#[verifier::external_body]
pub(crate) fn write_end(w: &mut Writer<Vec<u8>>, name: &str) -> (r: Result<(), quick_xml::Error>)
    ensures
        r is Ok,
        xml_written(*final(w)) == xml_step(
            xml_state(*old(w)),
            XmlEvent::End(encode_utf8(name@)),
        ).bytes,
        xml_indent(*final(w)) == shrunk(xml_indent(*old(w))),
        xml_breaks(*final(w)),
{
    w.write_event(Event::End(BytesEnd::new(name)))
}

/// Writes the element `name` with the text `text` inside:
/// `Writer::create_element` and `ElementWriter::write_text_content`. The start
/// tag, the escaped text and the end tag are written, each by `write_event`.
/// It succeeds, for the reason given of `write_start`. The indentation must
/// have room to grow.
#[verifier::external_body]
pub(crate) fn write_text_element(w: &mut Writer<Vec<u8>>, name: &str, text: &str) -> (r: Result<
    (),
    quick_xml::Error,
>)
    requires
        xml_indent(*old(w)) + 4 <= usize::MAX,
    ensures
        r is Ok,
        xml_written(*final(w)) == xml_run(
            xml_state(*old(w)),
            text_element(encode_utf8(name@), encode_utf8(text@)),
        ).bytes,
        xml_indent(*final(w)) == xml_indent(*old(w)),
        xml_breaks(*final(w)),
{
    match w.create_element(name).write_text_content(BytesText::new(text)) {
        Ok(_) => Ok(()),
        Err(e) => Err(e),
    }
}

/// The bytes that a writer has written: `Writer::into_inner` on a copy of it.
#[verifier::external_body]
pub(crate) fn written_bytes(w: &Writer<Vec<u8>>) -> (bytes: Vec<u8>)
    ensures
        bytes@ == xml_written(*w),
{
    w.clone().into_inner()
}

} // verus!
