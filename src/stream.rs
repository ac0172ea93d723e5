//! Reassembly of a streamed chat answer from the server-sent-event lines of
//! a response body.
//!
//! The body arrives as chunks of text. Each chunk is split into lines on the
//! newline character; a line is meaningful only when it begins with `data: `.
//! The payload `[DONE]` ends the stream; any other payload is one JSON event,
//! which the caller decodes. Each content fragment of a decoded event, with
//! one trailing newline removed, is appended to the answer. A payload that
//! does not decode fails the whole answer. Lines are not carried over from
//! one chunk to the next, so a line split across two chunks reaches the
//! decoder in two parts.

use vstd::prelude::*;
use vstd::string::*;
use vstd::utf8::{decode_utf8, valid_utf8};
use crate::chat::{Choice, Response, StreamedChoices, StreamedReponse};
use crate::text::{
    concat_all, has_prefix, join_all, same_text, split_lines,
    split_lines_of, starts_with_text,
};

verus! {

/// The prefix of a line that carries a payload.
pub open spec fn data_prefix() -> Seq<char> {
    "data: "@
}

/// The payload that marks the end of a stream.
pub open spec fn done_marker() -> Seq<char> {
    "[DONE]"@
}

/// What one line of a stream carries.
#[derive(Debug)]
pub enum StreamLine {
    /// A line without the `data: ` prefix.
    Ignored,
    /// The end-of-stream payload.
    Done,
    /// A payload to decode as one event.
    Payload(String),
}

/// The payload of a line, if it has one that is to be decoded.
pub open spec fn line_payload(line: Seq<char>) -> Option<Seq<char>> {
    if has_prefix(line, data_prefix()) {
        let p = line.subrange(data_prefix().len() as int, line.len() as int);
        if p == done_marker() {
            None
        } else {
            Some(p)
        }
    } else {
        None
    }
}

/// The payloads to decode among `lines`, in order.
pub open spec fn payloads_of_lines(lines: Seq<Seq<char>>) -> Seq<Seq<char>>
    decreases lines.len(),
{
    if lines.len() == 0 {
        Seq::empty()
    } else {
        let prev = payloads_of_lines(lines.drop_last());
        match line_payload(lines.last()) {
            Some(p) => prev.push(p),
            None => prev,
        }
    }
}

/// The payloads to decode in one chunk of a stream, in order.
pub open spec fn chunk_payloads(chunk: Seq<char>) -> Seq<Seq<char>> {
    payloads_of_lines(split_lines(chunk))
}

/// A content fragment with one trailing newline, if any, removed.
pub open spec fn strip_newline(c: Seq<char>) -> Seq<char> {
    if c.len() > 0 && c.last() == '\n' {
        c.drop_last()
    } else {
        c
    }
}

/// The fragments that a list of streamed choices adds to an answer, in order.
pub open spec fn choice_fragments(cs: Seq<StreamedChoices>) -> Seq<Seq<char>>
    decreases cs.len(),
{
    if cs.len() == 0 {
        Seq::empty()
    } else {
        let prev = choice_fragments(cs.drop_last());
        match cs.last().delta.content {
            Some(c) => prev.push(strip_newline(c@)),
            None => prev,
        }
    }
}

/// The fragments that one event adds to an answer.
pub open spec fn event_fragments(e: StreamedReponse) -> Seq<Seq<char>> {
    choice_fragments(e.choices@)
}

/// The fragments of a sequence of events, in order.
pub open spec fn events_fragments(es: Seq<StreamedReponse>) -> Seq<Seq<char>>
    decreases es.len(),
{
    if es.len() == 0 {
        Seq::empty()
    } else {
        events_fragments(es.drop_last()) + event_fragments(es.last())
    }
}

/// The answer that a sequence of events spells.
pub open spec fn streamed_answer(es: Seq<StreamedReponse>) -> Seq<char> {
    concat_all(events_fragments(es))
}

/// Whether every payload of a stream decoded.
pub open spec fn all_decoded(ds: Seq<Option<StreamedReponse>>) -> bool {
    forall|i: int| 0 <= i < ds.len() ==> (#[trigger] ds[i]) is Some
}

/// The events of a fully decoded stream.
pub open spec fn decoded_events(ds: Seq<Option<StreamedReponse>>) -> Seq<StreamedReponse> {
    ds.map_values(|d: Option<StreamedReponse>| d->0)
}

/// The answer of a whole (not streamed) response: the contents of its
/// choices joined in order.
pub open spec fn plain_answer(r: Response) -> Seq<char> {
    match r.choices {
        Some(cs) => concat_all(cs@.map_values(|c: Choice| c.message.content@)),
        None => Seq::empty(),
    }
}

/// Why a streamed answer could not be reassembled.
#[derive(Clone, Copy, Debug, PartialEq, Eq, Structural)]
pub enum StreamError {
    /// A payload was not one JSON event of the expected shape.
    Deserialization,
}

impl StreamError {
    /// A description of the error.
    pub fn message(&self) -> (r: String)
        ensures
            r@ == "Deserialization Error"@,
    {
        String::from_str("Deserialization Error")
    }
}

/// Says what one line of a stream carries.
pub fn classify_line(line: &str) -> (r: StreamLine)
    ensures
        match r {
            StreamLine::Ignored => !has_prefix(line@, data_prefix()),
            StreamLine::Done => has_prefix(line@, data_prefix()) && line_payload(line@) is None,
            StreamLine::Payload(p) => line_payload(line@) == Some(p@),
        },
{
    if !starts_with_text(line, "data: ") {
        return StreamLine::Ignored;
    }
    proof {
        reveal_strlit("data: ");
    }
    let n = line.unicode_len();
    let payload = line.substring_char(6, n);
    if same_text(payload, "[DONE]") {
        StreamLine::Done
    } else {
        StreamLine::Payload(String::from_str(payload))
    }
}

/// The payloads to decode in one chunk of a stream, in order.
pub fn payloads_of_chunk(chunk: &str) -> (r: Vec<String>)
    ensures
        r@.map_values(|p: String| p@) == chunk_payloads(chunk@),
{
    let lines = split_lines_of(chunk);
    let mut out: Vec<String> = Vec::new();
    let mut i: usize = 0;
    while i < lines.len()
        invariant
            i <= lines@.len(),
            lines@.map_values(|l: String| l@) == split_lines(chunk@),
            out@.map_values(|p: String| p@) == payloads_of_lines(
                lines@.subrange(0, i as int).map_values(|l: String| l@),
            ),
        decreases lines@.len() - i,
    {
        let ghost before = lines@.subrange(0, i as int).map_values(|l: String| l@);
        let ghost after = lines@.subrange(0, i + 1).map_values(|l: String| l@);
        assert(after =~= before.push(lines@[i as int]@));
        assert(after.drop_last() =~= before);
        let ghost old_out = out@;
        match classify_line(lines[i].as_str()) {
            StreamLine::Payload(p) => {
                out.push(p);
                assert(out@.map_values(|p: String| p@) =~= old_out.map_values(|p: String| p@).push(
                    out@.last()@,
                ));
            },
            _ => {},
        }
        i = i + 1;
    }
    assert(lines@.subrange(0, lines@.len() as int) =~= lines@);
    out
}

/// The text that lossy UTF-8 decoding makes of `bytes`.
pub uninterp spec fn lossy_text(bytes: Seq<u8>) -> Seq<char>;

/// Relies on `String::from_utf8_lossy`: the text depends on the bytes alone,
/// and bytes that are valid UTF-8 decode to exactly their characters.
#[verifier::external_body]
fn decode_lossy(bytes: &[u8]) -> (r: String)
    ensures
        r@ == lossy_text(bytes@),
        valid_utf8(bytes@) ==> r@ == decode_utf8(bytes@),
{
    String::from_utf8_lossy(bytes).into_owned()
}

/// The payloads to decode in one raw chunk of a response body, which is
/// read as UTF-8 with invalid sequences replaced.
pub fn payloads_of_bytes(chunk: &[u8]) -> (r: Vec<String>)
    ensures
        r@.map_values(|p: String| p@) == chunk_payloads(lossy_text(chunk@)),
        valid_utf8(chunk@) ==> r@.map_values(|p: String| p@) == chunk_payloads(decode_utf8(chunk@)),
{
    let text = decode_lossy(chunk);
    payloads_of_chunk(text.as_str())
}

/// A content fragment with one trailing newline, if any, removed.
pub fn strip_trailing_newline(content: &str) -> (r: String)
    ensures
        r@ == strip_newline(content@),
{
    let n = content.unicode_len();
    if n > 0 && content.get_char(n - 1) == '\n' {
        String::from_str(content.substring_char(0, n - 1))
    } else {
        String::from_str(content)
    }
}

/// The fragments that one event adds to an answer, in order.
pub fn fragments_of_event(event: &StreamedReponse) -> (r: Vec<String>)
    ensures
        r@.map_values(|f: String| f@) == event_fragments(*event),
{
    let mut out: Vec<String> = Vec::new();
    let mut i: usize = 0;
    while i < event.choices.len()
        invariant
            i <= event.choices@.len(),
            out@.map_values(|f: String| f@) == choice_fragments(event.choices@.subrange(0, i as int)),
        decreases event.choices@.len() - i,
    {
        assert(event.choices@.subrange(0, i + 1).drop_last() =~= event.choices@.subrange(0, i as int));
        let ghost old_out = out@;
        match &event.choices[i].delta.content {
            Some(c) => {
                out.push(strip_trailing_newline(c.as_str()));
                assert(out@.map_values(|f: String| f@) =~= old_out.map_values(|f: String| f@).push(
                    out@.last()@,
                ));
            },
            None => {},
        }
        i = i + 1;
    }
    assert(event.choices@.subrange(0, event.choices@.len() as int) =~= event.choices@);
    out
}

/// The fragments of an answer collected so far, in the order they arrived.
pub struct Reassembler {
    fragments: Vec<String>,
}

impl View for Reassembler {
    type V = Seq<Seq<char>>;

    closed spec fn view(&self) -> Seq<Seq<char>> {
        self.fragments@.map_values(|f: String| f@)
    }
}

impl Reassembler {
    /// A reassembler that has collected nothing.
    pub fn new() -> (r: Reassembler)
        ensures
            r@ == Seq::<Seq<char>>::empty(),
    {
        let r = Reassembler { fragments: Vec::new() };
        assert(r@ =~= Seq::<Seq<char>>::empty());
        r
    }

    /// Adds the fragments of one decoded event and returns them, so that the
    /// caller can echo them.
    pub fn accept(&mut self, event: &StreamedReponse) -> (echo: Vec<String>)
        ensures
            final(self)@ == old(self)@ + event_fragments(*event),
            echo@.map_values(|f: String| f@) == event_fragments(*event),
    {
        let pieces = fragments_of_event(event);
        let mut i: usize = 0;
        let ghost start = self@;
        while i < pieces.len()
            invariant
                i <= pieces@.len(),
                self@ == start + pieces@.subrange(0, i as int).map_values(|f: String| f@),
            decreases pieces@.len() - i,
        {
            let ghost before = self.fragments@;
            self.fragments.push(pieces[i].clone());
            assert(self@ =~= before.map_values(|f: String| f@).push(pieces@[i as int]@));
            assert(pieces@.subrange(0, i + 1).map_values(|f: String| f@) =~= pieces@.subrange(
                0,
                i as int,
            ).map_values(|f: String| f@).push(pieces@[i as int]@));
            i = i + 1;
        }
        assert(pieces@.subrange(0, pieces@.len() as int) =~= pieces@);
        pieces
    }

    /// Adds the fragments of a payload's decoding, or fails where the payload
    /// did not decode (`None`).
    pub fn accept_decoded(&mut self, decoded: &Option<StreamedReponse>) -> (r: Result<
        Vec<String>,
        StreamError,
    >)
        ensures
            decoded is None ==> r == Err::<Vec<String>, StreamError>(StreamError::Deserialization)
                && final(self)@ == old(self)@,
            decoded is Some ==> r is Ok && final(self)@ == old(self)@ + event_fragments(
                decoded->0,
            ) && r->Ok_0@.map_values(|f: String| f@) == event_fragments(decoded->0),
    {
        match decoded {
            Some(e) => Ok(self.accept(e)),
            None => Err(StreamError::Deserialization),
        }
    }

    /// The answer collected so far: the fragments joined in order.
    pub fn answer(&self) -> (r: String)
        ensures
            r@ == concat_all(self@),
    {
        join_all(&self.fragments)
    }
}

/// The answer of a stream whose payloads decoded to `decoded`, in order
/// (`None` where a payload did not decode). Fails, returning no part of the
/// answer, as soon as one payload did not decode.
pub fn reassemble(decoded: &Vec<Option<StreamedReponse>>) -> (r: Result<String, StreamError>)
    ensures
        r is Ok <==> all_decoded(decoded@),
        r is Err ==> r == Err::<String, StreamError>(StreamError::Deserialization),
        r is Ok ==> r->Ok_0@ == streamed_answer(decoded_events(decoded@)),
{
    let mut re = Reassembler::new();
    let mut i: usize = 0;
    while i < decoded.len()
        invariant
            i <= decoded@.len(),
            all_decoded(decoded@.subrange(0, i as int)),
            re@ == events_fragments(decoded_events(decoded@.subrange(0, i as int))),
        decreases decoded@.len() - i,
    {
        let ghost before = re@;
        match re.accept_decoded(&decoded[i]) {
            Ok(_) => {},
            Err(e) => {
                assert(!all_decoded(decoded@));
                return Err(e);
            },
        }
        assert(decoded_events(decoded@.subrange(0, i + 1)).drop_last() =~= decoded_events(
            decoded@.subrange(0, i as int),
        ));
        assert(decoded_events(decoded@.subrange(0, i + 1)).last() == decoded@[i as int]->0);
        assert(all_decoded(decoded@.subrange(0, i + 1))) by {
            assert forall|k: int| 0 <= k < i + 1 implies (#[trigger] decoded@.subrange(0, i + 1)[k]) is Some by {
                if k < i {
                    assert(decoded@.subrange(0, i as int)[k] == decoded@.subrange(0, i + 1)[k]);
                }
            }
        }
        i = i + 1;
    }
    assert(decoded@.subrange(0, decoded@.len() as int) =~= decoded@);
    Ok(re.answer())
}

/// The answer of a whole response: the contents of its choices joined in order.
pub fn plain_answer_of(response: &Response) -> (r: String)
    ensures
        r@ == plain_answer(*response),
{
    match &response.choices {
        Some(cs) => {
            let mut parts: Vec<String> = Vec::new();
            let mut i: usize = 0;
            while i < cs.len()
                invariant
                    i <= cs@.len(),
                    parts@.map_values(|s: String| s@) == cs@.subrange(0, i as int).map_values(
                        |c: Choice| c.message.content@,
                    ),
                decreases cs@.len() - i,
            {
                let ghost before = parts@;
                let piece = cs[i].message.content.clone();
                assert(piece@ == cs@[i as int].message.content@);
                parts.push(piece);
                assert(parts@.map_values(|s: String| s@) =~= before.map_values(|s: String| s@).push(
                    piece@,
                ));
                assert(cs@.subrange(0, i + 1).map_values(|c: Choice| c.message.content@) =~= cs@.subrange(
                    0,
                    i as int,
                ).map_values(|c: Choice| c.message.content@).push(piece@));
                i = i + 1;
            }
            assert(cs@.subrange(0, cs@.len() as int) =~= cs@);
            join_all(&parts)
        },
        None => String::new(),
    }
}

/// The contents that a list of streamed choices carries, in order, as sent.
pub open spec fn choice_contents(cs: Seq<StreamedChoices>) -> Seq<Seq<char>>
    decreases cs.len(),
{
    if cs.len() == 0 {
        Seq::empty()
    } else {
        let prev = choice_contents(cs.drop_last());
        match cs.last().delta.content {
            Some(c) => prev.push(c@),
            None => prev,
        }
    }
}

/// The contents that a sequence of events carries, in order, as sent.
pub open spec fn events_contents(es: Seq<StreamedReponse>) -> Seq<Seq<char>>
    decreases es.len(),
{
    if es.len() == 0 {
        Seq::empty()
    } else {
        events_contents(es.drop_last()) + choice_contents(es.last().choices@)
    }
}

/// Whether no content of the events ends in a newline.
pub open spec fn no_trailing_newlines(es: Seq<StreamedReponse>) -> bool {
    forall|i: int, j: int|
        0 <= i < es.len() && 0 <= j < es[i].choices@.len() && (#[trigger] es[i].choices@[j]).delta.content
            is Some ==> strip_newline(es[i].choices@[j].delta.content->0@)
            == es[i].choices@[j].delta.content->0@
}

proof fn lemma_choice_fragments_are_contents(cs: Seq<StreamedChoices>)
    requires
        forall|j: int|
            0 <= j < cs.len() && (#[trigger] cs[j]).delta.content is Some ==> strip_newline(
                cs[j].delta.content->0@,
            ) == cs[j].delta.content->0@,
    ensures
        choice_fragments(cs) == choice_contents(cs),
    decreases cs.len(),
{
    if cs.len() > 0 {
        assert forall|j: int|
            0 <= j < cs.drop_last().len() && (#[trigger] cs.drop_last()[j]).delta.content
                is Some implies strip_newline(cs.drop_last()[j].delta.content->0@)
            == cs.drop_last()[j].delta.content->0@ by {
            assert(cs.drop_last()[j] == cs[j]);
        }
        lemma_choice_fragments_are_contents(cs.drop_last());
        assert(cs.last() == cs[cs.len() - 1]);
    }
}

proof fn lemma_events_fragments_are_contents(es: Seq<StreamedReponse>)
    requires
        no_trailing_newlines(es),
    ensures
        events_fragments(es) == events_contents(es),
    decreases es.len(),
{
    if es.len() > 0 {
        let n = es.len() - 1;
        assert(no_trailing_newlines(es.drop_last())) by {
            assert forall|i: int, j: int|
                0 <= i < es.drop_last().len() && 0 <= j < es.drop_last()[i].choices@.len()
                    && (#[trigger] es.drop_last()[i].choices@[j]).delta.content is Some implies strip_newline(
                es.drop_last()[i].choices@[j].delta.content->0@,
            ) == es.drop_last()[i].choices@[j].delta.content->0@ by {
                assert(es.drop_last()[i] == es[i]);
                assert(es[i].choices@[j] == es.drop_last()[i].choices@[j]);
            }
        }
        lemma_events_fragments_are_contents(es.drop_last());
        let cs = es.last().choices@;
        assert(es.last() == es[n]);
        assert forall|j: int| 0 <= j < cs.len() && (#[trigger] cs[j]).delta.content is Some implies strip_newline(
            cs[j].delta.content->0@,
        ) == cs[j].delta.content->0@ by {
            assert(cs[j] == es[n].choices@[j]);
        }
        lemma_choice_fragments_are_contents(cs);
    }
}

/// Streaming and not streaming give the same answer: a stream whose events
/// carry, in order, the contents of a whole response's choices spells the
/// same text as that response, however the contents are spread over events
/// and choices. The one condition is that no streamed content ends in a
/// newline, which streaming alone removes.
pub proof fn lemma_stream_matches_whole(events: Seq<StreamedReponse>, response: Response)
    requires
        no_trailing_newlines(events),
        events_contents(events) == (match response.choices {
            Some(cs) => cs@.map_values(|c: Choice| c.message.content@),
            None => Seq::<Seq<char>>::empty(),
        }),
    ensures
        streamed_answer(events) == plain_answer(response),
{
    lemma_events_fragments_are_contents(events);
}

/// Lines are not carried over between chunks: where a chunk ends inside a
/// `data: ` line, the part of that line in the chunk is the chunk's last
/// payload, handed to the decoder on its own.
pub proof fn lemma_cut_line_is_own_payload(chunk: Seq<char>)
    requires
        line_payload(split_lines(chunk).last()) is Some,
    ensures
        chunk_payloads(chunk).len() > 0,
        chunk_payloads(chunk).last() == line_payload(split_lines(chunk).last())->0,
{
    crate::text::lemma_split_lines_nonempty(chunk);
}

/// A chunk none of whose lines carries a payload other than `[DONE]` gives
/// nothing to decode, and a stream with nothing decoded spells the empty answer.
pub proof fn lemma_done_only_is_empty(chunk: Seq<char>)
    requires
        forall|i: int|
            0 <= i < split_lines(chunk).len() ==> !has_prefix(
                #[trigger] split_lines(chunk)[i],
                data_prefix(),
            ) || split_lines(chunk)[i] == data_prefix() + done_marker(),
    ensures
        chunk_payloads(chunk) == Seq::<Seq<char>>::empty(),
        streamed_answer(Seq::<StreamedReponse>::empty()) == Seq::<char>::empty(),
{
    let lines = split_lines(chunk);
    assert forall|i: int| 0 <= i < lines.len() implies line_payload(#[trigger] lines[i]) is None by {
        let l = lines[i];
        if has_prefix(l, data_prefix()) {
            assert(l == data_prefix() + done_marker());
            assert(l.subrange(data_prefix().len() as int, l.len() as int) =~= done_marker());
        }
    }
    lemma_no_payloads(lines);
}

proof fn lemma_no_payloads(lines: Seq<Seq<char>>)
    requires
        forall|i: int| 0 <= i < lines.len() ==> line_payload(#[trigger] lines[i]) is None,
    ensures
        payloads_of_lines(lines) == Seq::<Seq<char>>::empty(),
    decreases lines.len(),
{
    if lines.len() > 0 {
        assert forall|i: int| 0 <= i < lines.drop_last().len() implies line_payload(
            #[trigger] lines.drop_last()[i],
        ) is None by {
            assert(lines.drop_last()[i] == lines[i]);
        }
        lemma_no_payloads(lines.drop_last());
        assert(line_payload(lines[lines.len() - 1]) is None);
    }
}

} // verus!
