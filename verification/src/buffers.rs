//! The answer of a model, put together from the lines of its stream.
use vstd::prelude::*;

use crate::catalog::ToolboxCatalog;
use crate::event::ApiUsage;
use crate::json::{Json, JsonView};
use crate::stream::{
    deltas_view, openai_stream_event, openai_stream_usage, stream_event, stream_usage, DeltaView,
    ModelUsage, OpenAiStreamEvent, OpenAiToolCallDelta, StreamView,
};
use crate::text::{characters, find_line_end, join3, line_end, text_between};

verus! {

/// What is said of an answer without text and without a tool call.
pub const EMPTY_MODEL_RESPONSE_ERROR: &'static str =
    "model completed without any assistant text characters or a valid tool call";

/// Whether an answer says nothing and asks for nothing.
pub fn completed_response_is_empty(has_assistant_characters: bool, has_valid_tool_call: bool) -> (
    empty: bool)
    ensures
        empty == (!has_assistant_characters && !has_valid_tool_call),
{
    !has_assistant_characters && !has_valid_tool_call
}

/// The tokens of a request as they are recorded.
pub open spec fn recorded_usage(usage: Option<ModelUsage>) -> Option<ApiUsage> {
    match usage {
        Some(tokens) => Some(
            ApiUsage {
                input_tokens: tokens.input_tokens,
                output_tokens: tokens.output_tokens,
                total_tokens: tokens.total_tokens,
            },
        ),
        None => None,
    }
}

/// The tokens of a request as they are recorded.
pub fn event_usage(usage: Option<ModelUsage>) -> (recorded: Option<ApiUsage>)
    ensures
        recorded == recorded_usage(usage),
{
    match usage {
        Some(tokens) => Some(
            ApiUsage {
                input_tokens: tokens.input_tokens,
                output_tokens: tokens.output_tokens,
                total_tokens: tokens.total_tokens,
            },
        ),
        None => None,
    }
}

/// A piece of the text of an answer: a whole line, or the end.
#[derive(Debug, PartialEq, Eq)]
pub struct AssistResponseChunk {
    pub content: String,
    pub finished: bool,
}

/// A piece of the text of an answer, as a value.
pub struct ChunkView {
    pub content: Seq<char>,
    pub finished: bool,
}

impl View for AssistResponseChunk {
    type V = ChunkView;

    open spec fn view(&self) -> ChunkView {
        ChunkView { content: self.content@, finished: self.finished }
    }
}

/// What the pieces are.
pub open spec fn chunks_view(chunks: Seq<AssistResponseChunk>) -> Seq<ChunkView> {
    Seq::new(chunks.len(), |i: int| chunks[i]@)
}

/// The complete lines of a text, each with its end.
pub open spec fn complete_lines(text: Seq<char>) -> Seq<ChunkView>
    decreases text.len(),
{
    let end = line_end(text) as int;
    if end >= text.len() {
        Seq::empty()
    } else {
        seq![ChunkView { content: text.take(end + 1), finished: false }] + complete_lines(
            text.skip(end + 1),
        )
    }
}

/// What follows the last complete line of a text.
pub open spec fn open_line(text: Seq<char>) -> Seq<char>
    decreases text.len(),
{
    let end = line_end(text) as int;
    if end >= text.len() {
        text
    } else {
        open_line(text.skip(end + 1))
    }
}

/// The text of pieces in a row.
pub open spec fn chunks_text(chunks: Seq<ChunkView>) -> Seq<char>
    decreases chunks.len(),
{
    if chunks.len() == 0 {
        Seq::empty()
    } else {
        chunks[0].content + chunks_text(chunks.skip(1))
    }
}

/// Cutting a text into its complete lines loses nothing: the lines and what follows them are the
/// text again.
pub proof fn law_lines_keep_the_text(text: Seq<char>)
    ensures
        chunks_text(complete_lines(text)) + open_line(text) == text,
    decreases text.len(),
{
    let end = line_end(text) as int;
    if end < text.len() {
        let rest = text.skip(end + 1);
        law_lines_keep_the_text(rest);
        let chunks = complete_lines(text);
        assert(chunks.skip(1) =~= complete_lines(rest));
        assert(chunks_text(chunks) + open_line(text) =~= text.take(end + 1) + (chunks_text(
            complete_lines(rest),
        ) + open_line(rest)));
        assert(text.take(end + 1) + rest =~= text);
    } else {
        assert(chunks_text(complete_lines(text)) + open_line(text) =~= text);
    }
}

/// The text of an answer under way.
#[derive(Debug)]
pub struct AssistResponseBuffer {
    pub content: String,
    pub finished: bool,
    pub has_characters: bool,
    pub provider_context_items: Vec<(String, Json)>,
    pub usage: Option<ModelUsage>,
}

/// The items that a provider wants back.
pub open spec fn items_view(items: Seq<(String, Json)>) -> Seq<(Seq<char>, JsonView)> {
    Seq::new(items.len(), |i: int| (items[i].0@, items[i].1@))
}

/// The text of an answer under way, as a value.
pub struct AssistView {
    pub content: Seq<char>,
    pub finished: bool,
    pub has_characters: bool,
    pub items: Seq<(Seq<char>, JsonView)>,
    pub usage: Option<ModelUsage>,
}

impl View for AssistResponseBuffer {
    type V = AssistView;

    open spec fn view(&self) -> AssistView {
        AssistView {
            content: self.content@,
            finished: self.finished,
            has_characters: self.has_characters,
            items: items_view(self.provider_context_items@),
            usage: self.usage,
        }
    }
}

impl AssistView {
    /// Nothing has come yet.
    pub open spec fn empty() -> AssistView {
        AssistView {
            content: Seq::empty(),
            finished: false,
            has_characters: false,
            items: Seq::empty(),
            usage: None,
        }
    }

    /// After more text: only what follows the last complete line is kept.
    pub open spec fn with_content(self, content: Seq<char>) -> AssistView {
        AssistView {
            content: open_line(self.content + content),
            has_characters: self.has_characters || content.len() > 0,
            ..self
        }
    }

    /// After the end.
    pub open spec fn at_end(self) -> AssistView {
        if self.finished {
            self
        } else {
            AssistView { content: Seq::empty(), finished: true, ..self }
        }
    }

    /// What the end gives out: the text that is left, once.
    pub open spec fn last_chunks(self) -> Seq<ChunkView> {
        if self.finished {
            Seq::empty()
        } else {
            seq![ChunkView { content: self.content, finished: true }]
        }
    }

    /// After a line that reports tokens.
    pub open spec fn with_usage(self, usage: Option<ModelUsage>) -> AssistView {
        match usage {
            Some(tokens) => AssistView { usage: Some(tokens), ..self },
            None => self,
        }
    }

    /// After a line of the stream, and the pieces that it gives out.
    pub open spec fn after_line(self, line: Seq<char>) -> (
        AssistView,
        Result<Seq<ChunkView>, Seq<char>>,
    ) {
        match stream_usage(line) {
            Err(error) => (self, Err(error)),
            Ok(usage) => {
                let counted = self.with_usage(usage);
                match stream_event(line) {
                    Err(error) => (counted, Err(error)),
                    Ok(StreamView::Delta { content: Some(content), tool_calls }) => (
                        counted.with_content(content),
                        Ok(complete_lines(counted.content + content)),
                    ),
                    Ok(StreamView::ProviderContextItem { provider, item }) => (
                        AssistView { items: counted.items.push((provider, item)), ..counted },
                        Ok(Seq::empty()),
                    ),
                    Ok(StreamView::Done) => (counted.at_end(), Ok(counted.last_chunks())),
                    Ok(_) => (counted, Ok(Seq::empty())),
                }
            },
        }
    }
}

/// Every piece of text that is handed in comes out once: what is given out and what is kept are
/// together what was kept and what was handed in.
pub proof fn law_content_is_given_out_once(buffer: AssistView, content: Seq<char>)
    ensures
        chunks_text(complete_lines(buffer.content + content)) + buffer.with_content(content).content
            == buffer.content + content,
{
    law_lines_keep_the_text(buffer.content + content);
}

/// The end gives out all that is kept, and nothing a second time.
pub proof fn law_end_gives_out_the_rest_once(buffer: AssistView)
    ensures
        !buffer.finished ==> chunks_text(buffer.last_chunks()) == buffer.content,
        buffer.at_end().last_chunks() == Seq::<ChunkView>::empty(),
        buffer.at_end().finished,
{
    if !buffer.finished {
        let chunks = buffer.last_chunks();
        assert(chunks.skip(1) =~= Seq::<ChunkView>::empty());
        assert(chunks_text(chunks.skip(1)) =~= Seq::<char>::empty());
        assert(chunks_text(chunks) =~= buffer.content);
    }
}

/// Texts in a row as one.
pub open spec fn joined_texts(texts: Seq<Seq<char>>) -> Seq<char>
    decreases texts.len(),
{
    if texts.len() == 0 {
        Seq::empty()
    } else {
        joined_texts(texts.drop_last()) + texts.last()
    }
}

impl AssistView {
    /// After more texts, one after the other.
    pub open spec fn with_contents(self, contents: Seq<Seq<char>>) -> AssistView
        decreases contents.len(),
    {
        if contents.len() == 0 {
            self
        } else {
            self.with_contents(contents.drop_last()).with_content(contents.last())
        }
    }

    /// All pieces that the texts give out.
    pub open spec fn lines_given_out(self, contents: Seq<Seq<char>>) -> Seq<ChunkView>
        decreases contents.len(),
    {
        if contents.len() == 0 {
            Seq::empty()
        } else {
            self.lines_given_out(contents.drop_last()) + complete_lines(
                self.with_contents(contents.drop_last()).content + contents.last(),
            )
        }
    }
}

/// However a text is cut when it is handed in, the pieces that come out joined, with what is still
/// kept, are what was kept before and the texts joined. Once the end has given out the rest, an
/// empty buffer has given out the texts joined.
pub proof fn law_texts_come_out_joined(buffer: AssistView, contents: Seq<Seq<char>>)
    ensures
        chunks_text(buffer.lines_given_out(contents)) + buffer.with_contents(contents).content
            == buffer.content + joined_texts(contents),
        !buffer.finished && buffer.content.len() == 0 ==> chunks_text(
            buffer.lines_given_out(contents) + buffer.with_contents(contents).last_chunks(),
        ) == joined_texts(contents),
    decreases contents.len(),
{
    let after = buffer.with_contents(contents);
    let out = buffer.lines_given_out(contents);
    if contents.len() == 0 {
        assert(chunks_text(out) + buffer.content =~= buffer.content + joined_texts(contents));
    } else {
        let before = contents.drop_last();
        let kept = buffer.with_contents(before);
        let earlier = buffer.lines_given_out(before);
        let chunks = complete_lines(kept.content + contents.last());
        law_texts_come_out_joined(buffer, before);
        law_content_is_given_out_once(kept, contents.last());
        lemma_chunks_in_a_row(earlier, chunks);
        assert(chunks_text(out) + after.content =~= chunks_text(earlier) + (chunks_text(chunks)
            + after.content));
        assert(chunks_text(earlier) + (kept.content + contents.last()) =~= (chunks_text(earlier)
            + kept.content) + contents.last());
        assert((buffer.content + joined_texts(before)) + contents.last() =~= buffer.content
            + joined_texts(contents));
    }
    lemma_still_open(buffer, contents);
    law_end_gives_out_the_rest_once(after);
    lemma_chunks_in_a_row(out, after.last_chunks());
    if buffer.content.len() == 0 {
        assert(buffer.content + joined_texts(contents) =~= joined_texts(contents));
    }
}

proof fn lemma_still_open(buffer: AssistView, contents: Seq<Seq<char>>)
    ensures
        buffer.with_contents(contents).finished == buffer.finished,
    decreases contents.len(),
{
    if contents.len() > 0 {
        lemma_still_open(buffer, contents.drop_last());
    }
}

/// The text that a line of the stream brings: none where it cannot be read.
pub open spec fn line_content(line: Seq<char>) -> Seq<char> {
    match (stream_usage(line), stream_event(line)) {
        (Ok(_), Ok(StreamView::Delta { content: Some(content), tool_calls })) => content,
        _ => Seq::empty(),
    }
}

/// The text that the lines of a stream bring, one after the other.
pub open spec fn lines_content(lines: Seq<Seq<char>>) -> Seq<char>
    decreases lines.len(),
{
    if lines.len() == 0 {
        Seq::empty()
    } else {
        lines_content(lines.drop_last()) + line_content(lines.last())
    }
}

impl AssistView {
    /// After the lines of a stream, one after the other.
    pub open spec fn after_lines(self, lines: Seq<Seq<char>>) -> AssistView
        decreases lines.len(),
    {
        if lines.len() == 0 {
            self
        } else {
            self.after_lines(lines.drop_last()).after_line(lines.last()).0
        }
    }

    /// All pieces that the lines of a stream give out.
    pub open spec fn given_out(self, lines: Seq<Seq<char>>) -> Seq<ChunkView>
        decreases lines.len(),
    {
        if lines.len() == 0 {
            Seq::empty()
        } else {
            let earlier = self.given_out(lines.drop_last());
            match self.after_lines(lines.drop_last()).after_line(lines.last()).1 {
                Ok(chunks) => earlier + chunks,
                Err(_) => earlier,
            }
        }
    }
}

proof fn lemma_chunks_in_a_row(first: Seq<ChunkView>, second: Seq<ChunkView>)
    ensures
        chunks_text(first + second) == chunks_text(first) + chunks_text(second),
    decreases first.len(),
{
    if first.len() == 0 {
        assert(first + second =~= second);
        assert(chunks_text(first) + chunks_text(second) =~= chunks_text(second));
    } else {
        lemma_chunks_in_a_row(first.skip(1), second);
        assert((first + second).skip(1) =~= first.skip(1) + second);
        assert(chunks_text(first + second) =~= chunks_text(first) + chunks_text(second));
    }
}

/// Whatever lines a stream has, the pieces that come out joined, with what is still kept, are what
/// was kept before and the text of the lines joined.
pub proof fn law_streamed_text_comes_out_once(buffer: AssistView, lines: Seq<Seq<char>>)
    ensures
        chunks_text(buffer.given_out(lines)) + buffer.after_lines(lines).content == buffer.content
            + lines_content(lines),
    decreases lines.len(),
{
    if lines.len() == 0 {
        assert(chunks_text(buffer.given_out(lines)) + buffer.content =~= buffer.content
            + lines_content(lines));
    } else {
        let before = lines.drop_last();
        let line = lines.last();
        let kept = buffer.after_lines(before);
        let earlier = buffer.given_out(before);
        let after = buffer.after_lines(lines).content;
        law_streamed_text_comes_out_once(buffer, before);
        let owed = buffer.content + lines_content(before);
        assert(owed + line_content(line) =~= buffer.content + lines_content(lines));
        match kept.after_line(line).1 {
            Ok(chunks) => {
                lemma_chunks_in_a_row(earlier, chunks);
                law_content_is_given_out_once(kept, line_content(line));
                law_end_gives_out_the_rest_once(kept);
                assert(kept.content + Seq::<char>::empty() =~= kept.content);
                assert(chunks_text(Seq::<ChunkView>::empty()) =~= Seq::<char>::empty());
                assert(chunks_text(chunks) + after =~= kept.content + line_content(line));
                assert(chunks_text(earlier) + (chunks_text(chunks) + after) =~= (chunks_text(
                    earlier,
                ) + kept.content) + line_content(line));
                assert(chunks_text(earlier + chunks) + after =~= chunks_text(earlier) + (
                chunks_text(chunks) + after));
            },
            Err(_) => {
                assert(line_content(line) =~= Seq::<char>::empty());
                assert(owed + line_content(line) =~= owed);
            },
        }
    }
}

/// Once a stream has ended, the pieces joined are the text of its lines joined.
pub proof fn law_ended_stream_came_out_whole(lines: Seq<Seq<char>>, last: Seq<char>)
    requires
        stream_usage(last) is Ok,
        stream_event(last) == Ok::<StreamView, Seq<char>>(StreamView::Done),
        !AssistView::empty().after_lines(lines).finished,
    ensures
        chunks_text(AssistView::empty().given_out(lines.push(last))) == lines_content(lines),
{
    let all = lines.push(last);
    assert(all.drop_last() =~= lines);
    law_streamed_text_comes_out_once(AssistView::empty(), all);
    assert(AssistView::empty().after_lines(all).content =~= Seq::<char>::empty());
    assert(line_content(last) =~= Seq::<char>::empty());
    assert(lines_content(all) =~= lines_content(lines));
    assert(AssistView::empty().content + lines_content(all) =~= lines_content(lines));
    let out = chunks_text(AssistView::empty().given_out(all));
    assert(out + Seq::<char>::empty() =~= out);
}

/// Whether these are the pieces that are given out.
pub open spec fn gives(
    result: Result<Vec<AssistResponseChunk>, String>,
    owed: Result<Seq<ChunkView>, Seq<char>>,
) -> bool {
    match result {
        Ok(chunks) => owed == Ok::<Seq<ChunkView>, Seq<char>>(chunks_view(chunks@)),
        Err(error) => owed == Err::<Seq<ChunkView>, Seq<char>>(error@),
    }
}

fn no_chunks() -> (chunks: Vec<AssistResponseChunk>)
    ensures
        chunks_view(chunks@) == Seq::<ChunkView>::empty(),
{
    let chunks: Vec<AssistResponseChunk> = Vec::new();
    assert(chunks_view(chunks@) =~= Seq::<ChunkView>::empty());
    chunks
}

impl AssistResponseBuffer {
    /// Nothing has come yet.
    pub fn new() -> (buffer: AssistResponseBuffer)
        ensures
            buffer@ == AssistView::empty(),
    {
        let buffer = AssistResponseBuffer {
            content: String::new(),
            finished: false,
            has_characters: false,
            provider_context_items: Vec::new(),
            usage: None,
        };
        assert(buffer@.content =~= Seq::<char>::empty());
        assert(buffer@.items =~= Seq::<(Seq<char>, JsonView)>::empty());
        buffer
    }

    /// Takes in a line of the stream, and gives out the pieces that it completes.
    pub fn push(&mut self, line: &str) -> (result: Result<Vec<AssistResponseChunk>, String>)
        ensures
            final(self)@ == old(self)@.after_line(line@).0,
            gives(result, old(self)@.after_line(line@).1),
    {
        match openai_stream_usage(line) {
            Err(error) => return Err(error),
            Ok(Some(tokens)) => {
                self.usage = Some(tokens);
            },
            Ok(None) => {},
        }
        match openai_stream_event(line) {
            Err(error) => Err(error),
            Ok(OpenAiStreamEvent::Delta { content: Some(content), .. }) => Ok(
                self.push_content(content.as_str()),
            ),
            Ok(OpenAiStreamEvent::Delta { content: None, .. }) => Ok(no_chunks()),
            Ok(OpenAiStreamEvent::ProviderContextItem { provider, item }) => {
                let ghost before = self.provider_context_items@;
                self.provider_context_items.push((provider, item));
                assert(items_view(self.provider_context_items@) =~= items_view(before).push(
                    (provider@, item@),
                ));
                Ok(no_chunks())
            },
            Ok(OpenAiStreamEvent::Done) => Ok(self.finish()),
            Ok(OpenAiStreamEvent::Other) => Ok(no_chunks()),
        }
    }

    /// Takes the items that the provider wants back.
    pub fn take_provider_context_items(&mut self) -> (items: Vec<(String, Json)>)
        ensures
            items_view(items@) == old(self)@.items,
            final(self)@ == (AssistView { items: Seq::empty(), ..old(self)@ }),
    {
        let mut items: Vec<(String, Json)> = Vec::new();
        std::mem::swap(&mut items, &mut self.provider_context_items);
        assert(self@.items =~= Seq::<(Seq<char>, JsonView)>::empty());
        items
    }

    /// Takes in text, and gives out the lines that it completes.
    pub fn push_content(&mut self, content: &str) -> (chunks: Vec<AssistResponseChunk>)
        ensures
            final(self)@ == old(self)@.with_content(content@),
            chunks_view(chunks@) == complete_lines(old(self)@.content + content@),
    {
        if content.unicode_len() > 0 {
            self.has_characters = true;
        }
        self.content.append(content);
        self.take_complete_lines()
    }

    /// Gives out the text that is left, once.
    pub fn finish(&mut self) -> (chunks: Vec<AssistResponseChunk>)
        ensures
            final(self)@ == old(self)@.at_end(),
            chunks_view(chunks@) == old(self)@.last_chunks(),
    {
        let mut chunks = no_chunks();
        if self.finished {
            return chunks;
        }
        self.finished = true;
        let mut content = String::new();
        assert(content@ =~= Seq::<char>::empty());
        std::mem::swap(&mut content, &mut self.content);
        chunks.push(AssistResponseChunk { content, finished: true });
        assert(chunks_view(chunks@) =~= old(self)@.last_chunks());
        chunks
    }

    fn take_complete_lines(&mut self) -> (chunks: Vec<AssistResponseChunk>)
        ensures
            final(self)@ == (AssistView { content: open_line(old(self)@.content), ..old(self)@ }),
            chunks_view(chunks@) == complete_lines(old(self)@.content),
    {
        let list = characters(self.content.as_str());
        let mut chunks = no_chunks();
        let mut from: usize = 0;
        let ghost all = complete_lines(list@);
        assert(list@.skip(0) =~= list@);
        assert(chunks_view(chunks@) + complete_lines(list@.skip(0)) =~= all);
        loop
            invariant
                from <= list@.len(),
                list@ == old(self)@.content,
                *self == *old(self),
                all == complete_lines(list@),
                chunks_view(chunks@) + complete_lines(list@.skip(from as int)) == all,
                open_line(list@.skip(from as int)) == open_line(list@),
            ensures
                chunks_view(chunks@) == all,
                open_line(list@) == list@.skip(from as int),
            decreases list@.len() - from,
        {
            let end = find_line_end(&list, from);
            let ghost rest = list@.skip(from as int);
            assert(rest =~= list@.subrange(from as int, list@.len() as int));
            if end >= list.len() {
                assert(chunks_view(chunks@) + complete_lines(rest) =~= chunks_view(chunks@));
                break;
            }
            let content = text_between(&list, from, end + 1);
            let ghost before = chunks@;
            chunks.push(AssistResponseChunk { content, finished: false });
            proof {
                let chunk = ChunkView { content: rest.take(end - from + 1), finished: false };
                assert(content@ =~= rest.take(end - from + 1));
                assert(chunks_view(chunks@) =~= chunks_view(before).push(chunk));
                assert(rest.skip(end - from + 1) =~= list@.skip(end + 1));
                assert(chunks_view(chunks@) + complete_lines(list@.skip(end + 1))
                    =~= chunks_view(before) + complete_lines(rest));
            }
            from = end + 1;
        }
        let content = text_between(&list, from, list.len());
        assert(content@ =~= list@.skip(from as int));
        self.content = content;
        chunks
    }
}

/// A tool call under way.
#[derive(Debug)]
pub struct PendingToolCall {
    pub provider_call_id: String,
    pub name: String,
    pub arguments: String,
}

/// A tool call that a model asked for, with the full name of its tool.
#[derive(Debug)]
pub struct CompletedToolCall {
    pub provider_call_id: String,
    pub name: String,
    pub arguments: String,
}

/// A tool call, as a value.
pub struct CallView {
    pub provider_call_id: Seq<char>,
    pub name: Seq<char>,
    pub arguments: Seq<char>,
}

impl View for PendingToolCall {
    type V = CallView;

    open spec fn view(&self) -> CallView {
        CallView {
            provider_call_id: self.provider_call_id@,
            name: self.name@,
            arguments: self.arguments@,
        }
    }
}

impl View for CompletedToolCall {
    type V = CallView;

    open spec fn view(&self) -> CallView {
        CallView {
            provider_call_id: self.provider_call_id@,
            name: self.name@,
            arguments: self.arguments@,
        }
    }
}

impl CallView {
    /// Nothing of the call has come yet.
    pub open spec fn empty() -> CallView {
        CallView { provider_call_id: Seq::empty(), name: Seq::empty(), arguments: Seq::empty() }
    }

    /// The call after an addition: the identity is replaced, name and arguments grow.
    pub open spec fn with_delta(self, delta: DeltaView) -> CallView {
        CallView {
            provider_call_id: match delta.id {
                Some(id) => id,
                None => self.provider_call_id,
            },
            name: match delta.name {
                Some(name) => self.name + name,
                None => self.name,
            },
            arguments: match delta.arguments {
                Some(arguments) => self.arguments + arguments,
                None => self.arguments,
            },
        }
    }
}

/// A tool call under way, at its index.
#[derive(Debug)]
pub struct ToolSlot {
    pub index: usize,
    pub call: PendingToolCall,
}

/// A tool call at its index, as a value.
pub struct SlotView {
    pub index: usize,
    pub call: CallView,
}

/// What the tool calls are.
pub open spec fn slots_view(slots: Seq<ToolSlot>) -> Seq<SlotView> {
    Seq::new(slots.len(), |i: int| SlotView { index: slots[i].index, call: slots[i].call@ })
}

/// Whether the tool calls stand in the order of their indices, one at each.
pub open spec fn in_order(slots: Seq<SlotView>) -> bool {
    forall|i: int, j: int|
        0 <= i < j < slots.len() ==> (#[trigger] slots[i]).index < (#[trigger] slots[j]).index
}

/// The tool calls after an addition, which begins a call where there is none at its index.
pub open spec fn slots_with(slots: Seq<SlotView>, delta: DeltaView) -> Seq<SlotView>
    decreases slots.len(),
{
    if slots.len() == 0 || delta.index < slots[0].index {
        seq![SlotView { index: delta.index, call: CallView::empty().with_delta(delta) }] + slots
    } else if slots[0].index == delta.index {
        slots.update(0, SlotView { index: delta.index, call: slots[0].call.with_delta(delta) })
    } else {
        seq![slots[0]] + slots_with(slots.skip(1), delta)
    }
}

/// The tool calls after the first additions.
pub open spec fn slots_after(slots: Seq<SlotView>, deltas: Seq<DeltaView>, count: int) -> Seq<
    SlotView,
>
    decreases count,
{
    if count <= 0 {
        slots
    } else {
        slots_with(slots_after(slots, deltas, count - 1), deltas[count - 1])
    }
}

proof fn lemma_slots_at(slots: Seq<SlotView>, delta: DeltaView, place: int)
    requires
        0 <= place <= slots.len(),
        forall|i: int| 0 <= i < place ==> (#[trigger] slots[i]).index < delta.index,
        place < slots.len() ==> delta.index <= slots[place].index,
    ensures
        slots_with(slots, delta) == (if place < slots.len() && slots[place].index == delta.index {
            slots.update(
                place,
                SlotView { index: delta.index, call: slots[place].call.with_delta(delta) },
            )
        } else {
            slots.insert(
                place,
                SlotView { index: delta.index, call: CallView::empty().with_delta(delta) },
            )
        }),
    decreases slots.len(),
{
    let added = SlotView { index: delta.index, call: CallView::empty().with_delta(delta) };
    if place == 0 {
        if slots.len() == 0 || delta.index < slots[0].index {
            assert(slots_with(slots, delta) =~= slots.insert(0, added));
        }
    } else {
        assert(slots[0].index < delta.index);
        let rest = slots.skip(1);
        assert forall|i: int| 0 <= i < place - 1 implies (#[trigger] rest[i]).index
            < delta.index by {
            assert(slots[i + 1].index < delta.index);
        }
        lemma_slots_at(rest, delta, place - 1);
        if place < slots.len() && slots[place].index == delta.index {
            let changed = SlotView {
                index: delta.index,
                call: slots[place].call.with_delta(delta),
            };
            assert(slots_with(slots, delta) =~= slots.update(place, changed));
        } else {
            assert(slots_with(slots, delta) =~= slots.insert(place, added));
        }
    }
}

/// The tool calls stay in the order of their indices, one at each.
pub proof fn law_tool_calls_stay_in_order(slots: Seq<SlotView>, delta: DeltaView)
    requires
        in_order(slots),
    ensures
        in_order(slots_with(slots, delta)),
{
    let place = order_place(slots, delta.index);
    lemma_order_place(slots, delta.index);
    lemma_slots_at(slots, delta, place);
    let after = slots_with(slots, delta);
    assert forall|i: int, j: int| 0 <= i < j < after.len() implies (#[trigger] after[i]).index < (
    #[trigger] after[j]).index by {
        if place < slots.len() && slots[place].index == delta.index {
            assert(after[i].index == slots[i].index);
            assert(after[j].index == slots[j].index);
        } else {
            let before_i = if i < place {
                i
            } else {
                i - 1
            };
            let before_j = if j < place {
                j
            } else {
                j - 1
            };
            if i != place {
                assert(after[i] == slots[before_i]);
            }
            if j != place {
                assert(after[j] == slots[before_j]);
            }
        }
    }
}

spec fn order_place(slots: Seq<SlotView>, index: usize) -> int
    decreases slots.len(),
{
    if slots.len() == 0 || index <= slots[0].index {
        0
    } else {
        1 + order_place(slots.skip(1), index)
    }
}

proof fn lemma_order_place(slots: Seq<SlotView>, index: usize)
    ensures
        0 <= order_place(slots, index) <= slots.len(),
        forall|i: int|
            0 <= i < order_place(slots, index) ==> (#[trigger] slots[i]).index < index,
        order_place(slots, index) < slots.len() ==> index <= slots[order_place(
            slots,
            index,
        )].index,
    decreases slots.len(),
{
    if slots.len() > 0 && index > slots[0].index {
        let rest = slots.skip(1);
        lemma_order_place(rest, index);
        assert forall|i: int| 0 <= i < order_place(slots, index) implies (#[trigger] slots[i]).index
            < index by {
            if i > 0 {
                assert(rest[i - 1] == slots[i]);
            }
        }
    }
}

/// The answer of a model that may call tools.
#[derive(Debug)]
pub struct MainResponseBuffer {
    pub assistant: AssistResponseBuffer,
    pub tools: Vec<ToolSlot>,
    pub provider_context_items: Vec<(String, Json)>,
    pub usage: Option<ModelUsage>,
}

/// The answer of a model that may call tools, as a value.
pub struct MainView {
    pub assistant: AssistView,
    pub tools: Seq<SlotView>,
    pub items: Seq<(Seq<char>, JsonView)>,
    pub usage: Option<ModelUsage>,
}

impl View for MainResponseBuffer {
    type V = MainView;

    open spec fn view(&self) -> MainView {
        MainView {
            assistant: self.assistant@,
            tools: slots_view(self.tools@),
            items: items_view(self.provider_context_items@),
            usage: self.usage,
        }
    }
}

impl MainView {
    /// Nothing has come yet.
    pub open spec fn empty() -> MainView {
        MainView {
            assistant: AssistView::empty(),
            tools: Seq::empty(),
            items: Seq::empty(),
            usage: None,
        }
    }

    /// After a line that reports tokens.
    pub open spec fn with_usage(self, usage: Option<ModelUsage>) -> MainView {
        match usage {
            Some(tokens) => MainView { usage: Some(tokens), ..self },
            None => self,
        }
    }

    /// After a line of the stream, and the pieces of text that it gives out.
    pub open spec fn after_line(self, line: Seq<char>) -> (
        MainView,
        Result<Seq<ChunkView>, Seq<char>>,
    ) {
        match stream_usage(line) {
            Err(error) => (self, Err(error)),
            Ok(usage) => {
                let counted = self.with_usage(usage);
                match stream_event(line) {
                    Err(error) => (counted, Err(error)),
                    Ok(StreamView::Delta { content, tool_calls }) => {
                        let called = MainView {
                            tools: slots_after(
                                counted.tools,
                                tool_calls,
                                tool_calls.len() as int,
                            ),
                            ..counted
                        };
                        match content {
                            Some(text) => (
                                MainView {
                                    assistant: called.assistant.with_content(text),
                                    ..called
                                },
                                Ok(complete_lines(called.assistant.content + text)),
                            ),
                            None => (called, Ok(Seq::empty())),
                        }
                    },
                    Ok(StreamView::ProviderContextItem { provider, item }) => (
                        MainView { items: counted.items.push((provider, item)), ..counted },
                        Ok(Seq::empty()),
                    ),
                    Ok(StreamView::Done) => (
                        MainView { assistant: counted.assistant.at_end(), ..counted },
                        Ok(counted.assistant.last_chunks()),
                    ),
                    Ok(StreamView::Other) => (counted, Ok(Seq::empty())),
                }
            },
        }
    }
}

impl MainView {
    /// After the lines of a stream, one after the other.
    pub open spec fn after_lines(self, lines: Seq<Seq<char>>) -> MainView
        decreases lines.len(),
    {
        if lines.len() == 0 {
            self
        } else {
            self.after_lines(lines.drop_last()).after_line(lines.last()).0
        }
    }

    /// All pieces of text that the lines of a stream give out.
    pub open spec fn given_out(self, lines: Seq<Seq<char>>) -> Seq<ChunkView>
        decreases lines.len(),
    {
        if lines.len() == 0 {
            Seq::empty()
        } else {
            let earlier = self.given_out(lines.drop_last());
            match self.after_lines(lines.drop_last()).after_line(lines.last()).1 {
                Ok(chunks) => earlier + chunks,
                Err(_) => earlier,
            }
        }
    }
}

/// Tools that are called do not touch the text: what the lines of a stream give out and keep of it
/// is what they give out and keep without tools.
pub proof fn law_tools_leave_the_text_alone(buffer: MainView, lines: Seq<Seq<char>>)
    ensures
        buffer.given_out(lines) == buffer.assistant.given_out(lines),
        buffer.after_lines(lines).assistant.content == buffer.assistant.after_lines(lines).content,
        buffer.after_lines(lines).assistant.finished == buffer.assistant.after_lines(
            lines,
        ).finished,
        chunks_text(buffer.given_out(lines)) + buffer.after_lines(lines).assistant.content
            == buffer.assistant.content + lines_content(lines),
    decreases lines.len(),
{
    if lines.len() > 0 {
        law_tools_leave_the_text_alone(buffer, lines.drop_last());
    }
    law_streamed_text_comes_out_once(buffer.assistant, lines);
}

/// What a tool call comes to, or what is wrong with it.
pub open spec fn completed_call(call: CallView, catalog: &ToolboxCatalog) -> Result<
    CallView,
    Seq<char>,
> {
    if call.provider_call_id.len() == 0 {
        Err("model tool call has no provider call ID"@)
    } else if call.name.len() == 0 {
        Err("model tool call has no name"@)
    } else if call.arguments.len() == 0 {
        Err("model tool call has no arguments"@)
    } else {
        match catalog.resolved(call.name) {
            Some(full) => Ok(CallView { name: full, ..call }),
            None => Err("model called unavailable tool "@ + call.name + ""@),
        }
    }
}

/// What the first tool calls come to, or what is wrong with the first bad one.
pub open spec fn completed_calls(
    slots: Seq<SlotView>,
    catalog: &ToolboxCatalog,
    count: int,
) -> Result<Seq<CallView>, Seq<char>>
    decreases count,
{
    if count <= 0 {
        Ok(Seq::empty())
    } else {
        match completed_calls(slots, catalog, count - 1) {
            Err(error) => Err(error),
            Ok(before) => match completed_call(slots[count - 1].call, catalog) {
                Err(error) => Err(error),
                Ok(call) => Ok(before.push(call)),
            },
        }
    }
}

proof fn lemma_completed_error_stays(
    slots: Seq<SlotView>,
    catalog: &ToolboxCatalog,
    early: int,
    late: int,
)
    requires
        early <= late,
        completed_calls(slots, catalog, early) is Err,
    ensures
        completed_calls(slots, catalog, late) == completed_calls(slots, catalog, early),
    decreases late - early,
{
    if early < late {
        lemma_completed_error_stays(slots, catalog, early, late - 1);
    }
}

/// What the completed tool calls are.
pub open spec fn calls_view(calls: Seq<CompletedToolCall>) -> Seq<CallView> {
    Seq::new(calls.len(), |i: int| calls[i]@)
}

fn complete_call(call: &PendingToolCall, catalog: &ToolboxCatalog) -> (result: Result<
    CompletedToolCall,
    String,
>)
    ensures
        match result {
            Ok(completed) => completed_call(call@, catalog) == Ok::<CallView, Seq<char>>(
                completed@,
            ),
            Err(error) => completed_call(call@, catalog) == Err::<CallView, Seq<char>>(error@),
        },
{
    if call.provider_call_id.as_str().unicode_len() == 0 {
        return Err("model tool call has no provider call ID".to_owned());
    }
    if call.name.as_str().unicode_len() == 0 {
        return Err("model tool call has no name".to_owned());
    }
    if call.arguments.as_str().unicode_len() == 0 {
        return Err("model tool call has no arguments".to_owned());
    }
    match catalog.resolve_api_name(call.name.as_str()) {
        Some(full) => Ok(
            CompletedToolCall {
                provider_call_id: call.provider_call_id.clone(),
                name: full.to_owned(),
                arguments: call.arguments.clone(),
            },
        ),
        None => Err(join3("model called unavailable tool ", call.name.as_str(), "")),
    }
}

fn add_delta(call: &mut PendingToolCall, delta: &OpenAiToolCallDelta)
    ensures
        final(call)@ == old(call)@.with_delta(delta@),
{
    if let Some(id) = &delta.id {
        call.provider_call_id = id.clone();
    }
    if let Some(name) = &delta.name {
        call.name.append(name.as_str());
    }
    if let Some(arguments) = &delta.arguments {
        call.arguments.append(arguments.as_str());
    }
}

impl MainResponseBuffer {
    /// Whether the tool calls stand in the order of their indices.
    pub open spec fn wf(&self) -> bool {
        in_order(self@.tools)
    }

    /// Nothing has come yet.
    pub fn new() -> (buffer: MainResponseBuffer)
        ensures
            buffer@ == MainView::empty(),
            buffer.wf(),
    {
        let buffer = MainResponseBuffer {
            assistant: AssistResponseBuffer::new(),
            tools: Vec::new(),
            provider_context_items: Vec::new(),
            usage: None,
        };
        assert(buffer@.tools =~= Seq::<SlotView>::empty());
        assert(buffer@.items =~= Seq::<(Seq<char>, JsonView)>::empty());
        buffer
    }

    /// Takes in a line of the stream, and gives out the pieces of text that it completes.
    pub fn push(&mut self, line: &str) -> (result: Result<Vec<AssistResponseChunk>, String>)
        requires
            old(self).wf(),
        ensures
            final(self).wf(),
            final(self)@ == old(self)@.after_line(line@).0,
            gives(result, old(self)@.after_line(line@).1),
    {
        match openai_stream_usage(line) {
            Err(error) => return Err(error),
            Ok(Some(tokens)) => {
                self.usage = Some(tokens);
            },
            Ok(None) => {},
        }
        match openai_stream_event(line) {
            Err(error) => Err(error),
            Ok(OpenAiStreamEvent::Delta { content, tool_calls }) => {
                self.push_tool_deltas(&tool_calls);
                match content {
                    Some(text) => Ok(self.assistant.push_content(text.as_str())),
                    None => Ok(no_chunks()),
                }
            },
            Ok(OpenAiStreamEvent::ProviderContextItem { provider, item }) => {
                let ghost before = self.provider_context_items@;
                self.provider_context_items.push((provider, item));
                assert(items_view(self.provider_context_items@) =~= items_view(before).push(
                    (provider@, item@),
                ));
                Ok(no_chunks())
            },
            Ok(OpenAiStreamEvent::Done) => Ok(self.assistant.finish()),
            Ok(OpenAiStreamEvent::Other) => Ok(no_chunks()),
        }
    }

    fn push_tool_deltas(&mut self, deltas: &Vec<OpenAiToolCallDelta>)
        requires
            old(self).wf(),
        ensures
            final(self).wf(),
            final(self)@ == (MainView {
                tools: slots_after(
                    old(self)@.tools,
                    deltas_view(deltas@),
                    deltas@.len() as int,
                ),
                ..old(self)@
            }),
    {
        let mut place: usize = 0;
        while place < deltas.len()
            invariant
                place <= deltas@.len(),
                self.wf(),
                self@ == (MainView {
                    tools: slots_after(old(self)@.tools, deltas_view(deltas@), place as int),
                    ..old(self)@
                }),
            decreases deltas@.len() - place,
        {
            assert(deltas_view(deltas@)[place as int] == deltas@[place as int]@);
            self.push_tool_delta(&deltas[place]);
            place += 1;
        }
    }

    /// Adds to the tool call at the index, which begins where there is none.
    pub fn push_tool_delta(&mut self, delta: &OpenAiToolCallDelta)
        requires
            old(self).wf(),
        ensures
            final(self).wf(),
            final(self)@ == (MainView {
                tools: slots_with(old(self)@.tools, delta@),
                ..old(self)@
            }),
    {
        proof {
            law_tool_calls_stay_in_order(self@.tools, delta@);
        }
        let ghost slots = self@.tools;
        let mut place: usize = 0;
        while place < self.tools.len() && self.tools[place].index < delta.index
            invariant
                place <= self.tools@.len(),
                *self == *old(self),
                slots == slots_view(self.tools@),
                forall|i: int| 0 <= i < place ==> (#[trigger] slots[i]).index < delta.index,
            decreases self.tools@.len() - place,
        {
            place += 1;
        }
        proof {
            lemma_slots_at(slots, delta@, place as int);
        }
        let ghost before = self.tools@;
        if place < self.tools.len() && self.tools[place].index == delta.index {
            add_delta(&mut self.tools[place].call, delta);
            assert(slots_view(self.tools@) =~= slots_with(slots, delta@));
        } else {
            let mut call = PendingToolCall {
                provider_call_id: String::new(),
                name: String::new(),
                arguments: String::new(),
            };
            assert(call.provider_call_id@ =~= Seq::<char>::empty());
            assert(call.name@ =~= Seq::<char>::empty());
            assert(call.arguments@ =~= Seq::<char>::empty());
            add_delta(&mut call, delta);
            self.tools.insert(place, ToolSlot { index: delta.index, call });
            assert(slots_view(self.tools@) =~= slots_with(slots, delta@));
        }
    }

    /// Takes the items that the provider wants back.
    pub fn take_provider_context_items(&mut self) -> (items: Vec<(String, Json)>)
        ensures
            items_view(items@) == old(self)@.items,
            final(self)@ == (MainView { items: Seq::empty(), ..old(self)@ }),
    {
        let mut items: Vec<(String, Json)> = Vec::new();
        std::mem::swap(&mut items, &mut self.provider_context_items);
        assert(self@.items =~= Seq::<(Seq<char>, JsonView)>::empty());
        items
    }

    /// Gives out the text that is left, once.
    pub fn finish(&mut self) -> (chunks: Vec<AssistResponseChunk>)
        ensures
            final(self)@ == (MainView {
                assistant: old(self)@.assistant.at_end(),
                ..old(self)@
            }),
            chunks_view(chunks@) == old(self)@.assistant.last_chunks(),
    {
        self.assistant.finish()
    }

    /// The tool calls that the model asked for, in the order of their indices.
    pub fn complete_tools(&self, catalog: &ToolboxCatalog) -> (result: Result<
        Vec<CompletedToolCall>,
        String,
    >)
        ensures
            match result {
                Ok(calls) => completed_calls(self@.tools, catalog, self@.tools.len() as int)
                    == Ok::<Seq<CallView>, Seq<char>>(calls_view(calls@)),
                Err(error) => completed_calls(self@.tools, catalog, self@.tools.len() as int)
                    == Err::<Seq<CallView>, Seq<char>>(error@),
            },
    {
        let ghost slots = self@.tools;
        let mut calls: Vec<CompletedToolCall> = Vec::new();
        let mut place: usize = 0;
        assert(calls_view(calls@) =~= Seq::<CallView>::empty());
        while place < self.tools.len()
            invariant
                place <= self.tools@.len(),
                slots == slots_view(self.tools@),
                completed_calls(slots, catalog, place as int) == Ok::<Seq<CallView>, Seq<char>>(
                    calls_view(calls@),
                ),
            decreases self.tools@.len() - place,
        {
            assert(slots[place as int].call == self.tools@[place as int].call@);
            match complete_call(&self.tools[place].call, catalog) {
                Ok(call) => {
                    let ghost before = calls@;
                    calls.push(call);
                    assert(calls_view(calls@) =~= calls_view(before).push(call@));
                },
                Err(error) => {
                    proof {
                        lemma_completed_error_stays(slots, catalog, place + 1, slots.len() as int);
                    }
                    return Err(error);
                },
            }
            place += 1;
        }
        Ok(calls)
    }
}

/// The answer of a model that is to summarize and may not call tools.
#[derive(Debug)]
pub struct CompactResponseBuffer {
    pub content: String,
    pub usage: Option<ModelUsage>,
    pub has_characters: bool,
    pub called_tool: bool,
}

/// The answer of a model that is to summarize, as a value.
pub struct CompactView {
    pub content: Seq<char>,
    pub usage: Option<ModelUsage>,
    pub has_characters: bool,
    pub called_tool: bool,
}

impl View for CompactResponseBuffer {
    type V = CompactView;

    open spec fn view(&self) -> CompactView {
        CompactView {
            content: self.content@,
            usage: self.usage,
            has_characters: self.has_characters,
            called_tool: self.called_tool,
        }
    }
}

impl CompactView {
    /// Nothing has come yet.
    pub open spec fn empty() -> CompactView {
        CompactView {
            content: Seq::empty(),
            usage: None,
            has_characters: false,
            called_tool: false,
        }
    }

    /// After a line of the stream, or what is wrong with it.
    pub open spec fn after_line(self, line: Seq<char>) -> (CompactView, Result<(), Seq<char>>) {
        match stream_usage(line) {
            Err(error) => (self, Err(error)),
            Ok(usage) => {
                let counted = match usage {
                    Some(tokens) => CompactView { usage: Some(tokens), ..self },
                    None => self,
                };
                match stream_event(line) {
                    Err(error) => (counted, Err(error)),
                    Ok(StreamView::Delta { content, tool_calls }) => {
                        let called = CompactView {
                            called_tool: counted.called_tool || tool_calls.len() > 0,
                            ..counted
                        };
                        match content {
                            Some(text) => (
                                CompactView {
                                    content: called.content + text,
                                    has_characters: called.has_characters || text.len() > 0,
                                    ..called
                                },
                                Ok(()),
                            ),
                            None => (called, Ok(())),
                        }
                    },
                    Ok(_) => (counted, Ok(())),
                }
            },
        }
    }
}

impl CompactResponseBuffer {
    /// Nothing has come yet.
    pub fn new() -> (buffer: CompactResponseBuffer)
        ensures
            buffer@ == CompactView::empty(),
    {
        let buffer = CompactResponseBuffer {
            content: String::new(),
            usage: None,
            has_characters: false,
            called_tool: false,
        };
        assert(buffer.content@ =~= Seq::<char>::empty());
        buffer
    }

    /// Takes in a line of the stream.
    pub fn push(&mut self, line: &str) -> (result: Result<(), String>)
        ensures
            final(self)@ == old(self)@.after_line(line@).0,
            match result {
                Ok(_) => old(self)@.after_line(line@).1 == Ok::<(), Seq<char>>(()),
                Err(error) => old(self)@.after_line(line@).1 == Err::<(), Seq<char>>(error@),
            },
    {
        match openai_stream_usage(line) {
            Err(error) => return Err(error),
            Ok(Some(tokens)) => {
                self.usage = Some(tokens);
            },
            Ok(None) => {},
        }
        match openai_stream_event(line) {
            Err(error) => Err(error),
            Ok(OpenAiStreamEvent::Delta { content, tool_calls }) => {
                assert(deltas_view(tool_calls@).len() == tool_calls@.len());
                if tool_calls.len() > 0 {
                    self.called_tool = true;
                }
                if let Some(text) = content {
                    if text.as_str().unicode_len() > 0 {
                        self.has_characters = true;
                    }
                    self.content.append(text.as_str());
                }
                Ok(())
            },
            Ok(_) => Ok(()),
        }
    }
}

} // verus!
