//! Running the tool calls of one response. Whatever happens to a call, it
//! gets an answer: a conversation in which one lacks it is rejected.

use crate::api;
use crate::api::{BlockView, BodyView, ImageSource, ImageView, Json, MessageContentBlock};
use crate::session::model;
use crate::session::model::{DisplayMessage, DisplayView};
use crate::text;
use vstd::prelude::*;

verus! {

/// The tool that runs shell commands.
pub const EXECUTE_BASH: &'static str = "execute_bash";

/// How the answer of a file tool starts when the user declined.
pub const FILE_DELETION_CANCELLED: &'static str = "File deletion cancelled by user";

/// How the answer of a directory tool starts when the user declined.
pub const DIRECTORY_DELETION_CANCELLED: &'static str = "Directory deletion cancelled by user";

/// What the calls after a declined deletion are answered.
pub const SKIPPED: &'static str =
    "Tool execution skipped: an earlier deletion in this batch was cancelled by the user.";

/// A tool call of a response.
#[derive(Debug)]
pub struct ToolCall {
    pub id: String,
    pub name: String,
    pub input: Json,
}

#[verifier::ext_equal]
pub struct CallView {
    pub id: Seq<char>,
    pub name: Seq<char>,
    pub input: Seq<char>,
}

impl View for ToolCall {
    type V = CallView;

    open spec fn view(&self) -> CallView {
        CallView { id: self.id@, name: self.name@, input: self.input@ }
    }
}

/// The views of a list of calls.
pub open spec fn call_views(v: Seq<ToolCall>) -> Seq<CallView> {
    v.map_values(|c: ToolCall| c@)
}

impl ToolCall {
    pub open spec fn command_of(c: CallView) -> Option<Seq<char>> {
        if c.name == EXECUTE_BASH@ {
            api::json_string_member(c.input, "command"@)
        } else {
            None
        }
    }

    /// The shell command that the call runs, if it runs one.
    pub fn command(&self) -> (r: Option<String>)
        ensures
            api::option_view(r) == ToolCall::command_of(self@),
    {
        if text::same(self.name.as_str(), EXECUTE_BASH) {
            self.input.string_member("command")
        } else {
            None
        }
    }
}

/// What a tool gave back.
#[derive(Debug)]
pub struct ToolOutput {
    /// What the model is told.
    pub text: String,
    /// What the user is shown.
    pub display: String,
    pub images: Vec<ImageSource>,
}

/// How a tool call ended.
#[derive(Debug)]
pub enum ToolOutcome {
    Output(ToolOutput),
    /// The call failed; the text says why.
    Failed(String),
}

#[verifier::ext_equal]
pub enum OutcomeView {
    Output { text: Seq<char>, display: Seq<char>, images: Seq<ImageView> },
    Failed { error: Seq<char> },
}

pub open spec fn image_views(v: Seq<ImageSource>) -> Seq<ImageView> {
    v.map_values(|i: ImageSource| i@)
}

impl View for ToolOutcome {
    type V = OutcomeView;

    open spec fn view(&self) -> OutcomeView {
        match *self {
            ToolOutcome::Output(o) => OutcomeView::Output {
                text: o.text@,
                display: o.display@,
                images: image_views(o.images@),
            },
            ToolOutcome::Failed(e) => OutcomeView::Failed { error: e@ },
        }
    }
}

/// The calls of one response, how many of them are done, and the blocks
/// that answer those.
pub struct ToolBatch {
    pub calls: Vec<ToolCall>,
    pub next: usize,
    pub results: Vec<MessageContentBlock>,
    /// Whether the user declined a deletion.
    pub cancelled: bool,
}

#[verifier::ext_equal]
pub struct BatchView {
    pub calls: Seq<CallView>,
    pub next: nat,
    pub results: Seq<BlockView>,
    pub cancelled: bool,
}

impl View for ToolBatch {
    type V = BatchView;

    open spec fn view(&self) -> BatchView {
        BatchView {
            calls: call_views(self.calls@),
            next: self.next as nat,
            results: api::block_views(self.results@),
            cancelled: self.cancelled,
        }
    }
}

/// Whether an answer says that the user declined a deletion.
pub open spec fn declines(text: Seq<char>) -> bool {
    text::has_prefix(text, FILE_DELETION_CANCELLED@) || text::has_prefix(
        text,
        DIRECTORY_DELETION_CANCELLED@,
    )
}

pub open spec fn image_block(i: ImageView) -> BlockView {
    BlockView { body: BodyView::Image { source: i }, cache: None }
}

pub open spec fn image_blocks(v: Seq<ImageView>) -> Seq<BlockView> {
    v.map_values(|i: ImageView| image_block(i))
}

/// The answers to calls that were not run.
pub open spec fn skipped_results(v: Seq<CallView>) -> Seq<BlockView> {
    v.map_values(|c: CallView| BlockView::tool_result(c.id, SKIPPED@))
}

impl BatchView {
    pub open spec fn of(calls: Seq<CallView>) -> BatchView {
        BatchView { calls, next: 0, results: Seq::empty(), cancelled: false }
    }

    pub open spec fn is_done(self) -> bool {
        self.next >= self.calls.len()
    }

    /// The batch after its next call ended.
    pub open spec fn after(self, outcome: OutcomeView) -> BatchView {
        let id = self.calls[self.next as int].id;
        match outcome {
            OutcomeView::Failed { error } => BatchView {
                next: self.next + 1,
                results: self.results.push(BlockView::tool_result(id, error)),
                ..self
            },
            OutcomeView::Output { text, images, .. } => {
                let results = self.results.push(BlockView::tool_result(id, text)) + image_blocks(
                    images,
                );
                if declines(text) {
                    BatchView {
                        next: self.calls.len(),
                        results: results + skipped_results(self.calls.skip(self.next as int + 1)),
                        cancelled: true,
                        ..self
                    }
                } else {
                    BatchView { next: self.next + 1, results, ..self }
                }
            },
        }
    }

    /// What the user sees of the next call once it ended.
    pub open spec fn shown(self, outcome: OutcomeView) -> DisplayView {
        let call = self.calls[self.next as int];
        DisplayView::ToolExecution {
            tool_name: call.name,
            tool_input: call.input,
            tool_output: match outcome {
                OutcomeView::Failed { error } => error,
                OutcomeView::Output { display, .. } => display,
            },
        }
    }

    /// Every call that is done has exactly one answer, and the answers come
    /// in the order of the calls.
    pub open spec fn wf(self) -> bool {
        self.next <= self.calls.len() && answered_ids(self.results) == call_ids(
            self.calls.take(self.next as int),
        )
    }
}

pub open spec fn call_ids(v: Seq<CallView>) -> Seq<Seq<char>> {
    v.map_values(|c: CallView| c.id)
}

/// The calls that a list of blocks answers, in order.
pub open spec fn answered_ids(v: Seq<BlockView>) -> Seq<Seq<char>>
    decreases v.len(),
{
    if v.len() == 0 {
        Seq::empty()
    } else {
        let before = answered_ids(v.drop_last());
        match v.last().body {
            BodyView::ToolResult { tool_use_id, .. } => before.push(tool_use_id),
            _ => before,
        }
    }
}

proof fn lemma_answered_add(a: Seq<BlockView>, b: Seq<BlockView>)
    ensures
        answered_ids(a + b) == answered_ids(a) + answered_ids(b),
    decreases b.len(),
{
    if b.len() == 0 {
        assert(a + b =~= a);
        assert(answered_ids(a) + answered_ids(b) =~= answered_ids(a));
    } else {
        assert((a + b).drop_last() =~= a + b.drop_last());
        lemma_answered_add(a, b.drop_last());
        assert(answered_ids(a + b) =~= answered_ids(a) + answered_ids(b));
    }
}

proof fn lemma_images_answer_nothing(v: Seq<ImageView>)
    ensures
        answered_ids(image_blocks(v)) == Seq::<Seq<char>>::empty(),
    decreases v.len(),
{
    if v.len() > 0 {
        assert(image_blocks(v).drop_last() =~= image_blocks(v.drop_last()));
        lemma_images_answer_nothing(v.drop_last());
    }
}

proof fn lemma_skipped_answer_all(v: Seq<CallView>)
    ensures
        answered_ids(skipped_results(v)) == call_ids(v),
    decreases v.len(),
{
    if v.len() > 0 {
        assert(skipped_results(v).drop_last() =~= skipped_results(v.drop_last()));
        lemma_skipped_answer_all(v.drop_last());
        assert(call_ids(v) =~= call_ids(v.drop_last()).push(v.last().id));
    } else {
        assert(call_ids(v) =~= Seq::empty());
    }
}

/// Whatever a call ends with, every call that is done keeps exactly one
/// answer, in the order of the calls.
pub proof fn every_call_is_answered_once(b: BatchView, outcome: OutcomeView)
    requires
        b.wf(),
        !b.is_done(),
    ensures
        b.after(outcome).wf(),
        b.after(outcome).calls == b.calls,
        b.after(outcome).next > b.next,
{
    let id = b.calls[b.next as int].id;
    let next = b.next as int;
    assert(call_ids(b.calls.take(next + 1)) =~= call_ids(b.calls.take(next)).push(id));
    match outcome {
        OutcomeView::Failed { error } => {
            let r = b.results.push(BlockView::tool_result(id, error));
            assert(r.drop_last() =~= b.results);
        },
        OutcomeView::Output { text, images, .. } => {
            let one = b.results.push(BlockView::tool_result(id, text));
            assert(one.drop_last() =~= b.results);
            lemma_answered_add(one, image_blocks(images));
            lemma_images_answer_nothing(images);
            let with = one + image_blocks(images);
            assert(answered_ids(with) =~= call_ids(b.calls.take(next + 1)));
            if declines(text) {
                let rest = b.calls.skip(next + 1);
                lemma_skipped_answer_all(rest);
                lemma_answered_add(with, skipped_results(rest));
                assert(b.calls.take(next + 1) + rest =~= b.calls);
                assert(b.calls.take(b.calls.len() as int) =~= b.calls);
                assert(call_ids(b.calls) =~= call_ids(b.calls.take(next + 1)) + call_ids(rest));
            }
        },
    }
}

/// A batch that is done answers exactly the calls of the response, each
/// once and in order.
pub proof fn finished_batch_answers_all_calls(b: BatchView)
    requires
        b.wf(),
        b.is_done(),
    ensures
        answered_ids(b.results) == call_ids(b.calls),
{
    assert(b.calls.take(b.next as int) =~= b.calls);
}

/// A batch starts with no call done.
pub proof fn new_batch_is_wf(calls: Seq<CallView>)
    ensures
        BatchView::of(calls).wf(),
{
    assert(call_ids(calls.take(0)) =~= Seq::empty());
}

/// Whether `after` is `before` with answers to the calls from the `done`-th
/// on: the given text for the first of them, the images that came with it,
/// and the given word for each of the `skipped` calls behind it.
pub open spec fn is_answered(
    before: Seq<BlockView>,
    after: Seq<BlockView>,
    calls: Seq<CallView>,
    done: int,
    text: Seq<char>,
    images: Seq<ImageView>,
    skipped: int,
) -> bool {
    &&& after.len() == before.len() + 1 + images.len() + skipped
    &&& after.take(before.len() as int) == before
    &&& after[before.len() as int].body == BodyView::ToolResult {
        tool_use_id: calls[done].id,
        content: text,
    }
    &&& after[before.len() as int].cache is None
    &&& forall|i: int|
        0 <= i < images.len() ==> (#[trigger] after[before.len() + 1 + i]).body == (
        BodyView::Image { source: images[i] })
    &&& forall|k: int|
        0 <= k < skipped ==> (#[trigger] after[before.len() + 1 + images.len() + k]).body == (
        BodyView::ToolResult {
            tool_use_id: calls[done + 1 + k].id,
            content:
                "Tool execution skipped: an earlier deletion in this batch was cancelled by the user."@,
        })
}

/// A declined deletion, of a file or of a directory, ends the batch: it is
/// done and cancelled, and every later call is answered that it was
/// skipped.
pub proof fn declined_deletion_ends_the_batch(
    b: BatchView,
    rest: Seq<char>,
    display: Seq<char>,
    images: Seq<ImageView>,
)
    requires
        b.next < b.calls.len(),
    ensures
        FILE_DELETION_CANCELLED@ == "File deletion cancelled by user"@,
        DIRECTORY_DELETION_CANCELLED@ == "Directory deletion cancelled by user"@,
        ({
            let text = FILE_DELETION_CANCELLED@ + rest;
            let now = b.after(OutcomeView::Output { text, display, images });
            &&& now.calls == b.calls
            &&& now.next == b.calls.len()
            &&& now.is_done()
            &&& now.cancelled
            &&& is_answered(
                b.results,
                now.results,
                b.calls,
                b.next as int,
                text,
                images,
                b.calls.len() - b.next - 1,
            )
        }),
        ({
            let text = DIRECTORY_DELETION_CANCELLED@ + rest;
            let now = b.after(OutcomeView::Output { text, display, images });
            &&& now.calls == b.calls
            &&& now.next == b.calls.len()
            &&& now.is_done()
            &&& now.cancelled
            &&& is_answered(
                b.results,
                now.results,
                b.calls,
                b.next as int,
                text,
                images,
                b.calls.len() - b.next - 1,
            )
        }),
{
    let file = FILE_DELETION_CANCELLED@ + rest;
    assert(file.take(FILE_DELETION_CANCELLED@.len() as int) =~= FILE_DELETION_CANCELLED@);
    let of_file = b.after(OutcomeView::Output { text: file, display, images });
    assert(of_file.results.take(b.results.len() as int) =~= b.results);
    let directory = DIRECTORY_DELETION_CANCELLED@ + rest;
    assert(directory.take(DIRECTORY_DELETION_CANCELLED@.len() as int)
        =~= DIRECTORY_DELETION_CANCELLED@);
    let of_directory = b.after(OutcomeView::Output { text: directory, display, images });
    assert(of_directory.results.take(b.results.len() as int) =~= b.results);
}

/// Any other output finishes one call, and so does a failure: the call is
/// answered, the next one follows, and the batch is not cancelled by it.
pub proof fn other_ends_finish_one_call(
    b: BatchView,
    text: Seq<char>,
    display: Seq<char>,
    images: Seq<ImageView>,
)
    requires
        b.next < b.calls.len(),
    ensures
        !FILE_DELETION_CANCELLED@.is_prefix_of(text) && !DIRECTORY_DELETION_CANCELLED@.is_prefix_of(
            text,
        ) ==> {
            let now = b.after(OutcomeView::Output { text, display, images });
            &&& now.calls == b.calls
            &&& now.next == b.next + 1
            &&& now.cancelled == b.cancelled
            &&& is_answered(b.results, now.results, b.calls, b.next as int, text, images, 0)
        },
        ({
            let now = b.after(OutcomeView::Failed { error: text });
            &&& now.calls == b.calls
            &&& now.next == b.next + 1
            &&& now.cancelled == b.cancelled
            &&& is_answered(b.results, now.results, b.calls, b.next as int, text, seq![], 0)
        }),
{
    let file = FILE_DELETION_CANCELLED@;
    let directory = DIRECTORY_DELETION_CANCELLED@;
    let now = b.after(OutcomeView::Output { text, display, images });
    if file.len() <= text.len() && text.take(file.len() as int) == file {
        assert(file.is_prefix_of(text));
    }
    if directory.len() <= text.len() && text.take(directory.len() as int) == directory {
        assert(directory.is_prefix_of(text));
    }
    if !declines(text) {
        assert(now.results.take(b.results.len() as int) =~= b.results);
    }
    let failed = b.after(OutcomeView::Failed { error: text });
    assert(failed.results.take(b.results.len() as int) =~= b.results);
}

/// The user sees of a call its name, its arguments, and what it is meant to
/// show, or why it failed; never what only the model is told.
pub proof fn user_sees_the_call_and_its_end(
    b: BatchView,
    text: Seq<char>,
    display: Seq<char>,
    images: Seq<ImageView>,
)
    requires
        b.next < b.calls.len(),
    ensures
        b.shown(OutcomeView::Output { text, display, images }) == (DisplayView::ToolExecution {
            tool_name: b.calls[b.next as int].name,
            tool_input: b.calls[b.next as int].input,
            tool_output: display,
        }),
        b.shown(OutcomeView::Failed { error: text }) == (DisplayView::ToolExecution {
            tool_name: b.calls[b.next as int].name,
            tool_input: b.calls[b.next as int].input,
            tool_output: text,
        }),
{
}

/// Only the tool that runs shell commands runs one.
pub proof fn only_the_shell_runs_commands(c: CallView)
    ensures
        c.name == "execute_bash"@ ==> ToolCall::command_of(c) == api::json_string_member(
            c.input,
            "command"@,
        ),
        c.name != "execute_bash"@ ==> ToolCall::command_of(c) is None,
{
}

impl ToolBatch {
    pub fn new(calls: Vec<ToolCall>) -> (r: Self)
        ensures
            r@ == BatchView::of(call_views(calls@)),
            r@.wf(),
    {
        let r = ToolBatch { calls, next: 0, results: Vec::new(), cancelled: false };
        proof {
            new_batch_is_wf(call_views(calls@));
            assert(r@ =~= BatchView::of(call_views(calls@)));
        }
        r
    }

    /// Whether every call is done.
    pub fn is_done(&self) -> (r: bool)
        ensures
            r == self@.is_done(),
    {
        self.next >= self.calls.len()
    }

    /// The call to run next.
    pub fn current(&self) -> (r: Option<&ToolCall>)
        ensures
            match r {
                Some(c) => !self@.is_done() && c@ == self@.calls[self@.next as int],
                None => self@.is_done(),
            },
    {
        if self.next < self.calls.len() {
            Some(&self.calls[self.next])
        } else {
            None
        }
    }

    fn push_result(&mut self, id: String, content: String)
        ensures
            final(self)@ == (BatchView {
                results: old(self)@.results.push(BlockView::tool_result(id@, content@)),
                ..old(self)@
            }),
    {
        let ghost before = self.results@;
        self.results.push(
            MessageContentBlock::ToolResult { tool_use_id: id, content, cache_control: None },
        );
        assert(api::block_views(self.results@) =~= api::block_views(before).push(
            BlockView::tool_result(id@, content@),
        ));
    }

    fn push_images(&mut self, images: &Vec<ImageSource>)
        ensures
            final(self)@ == (BatchView {
                results: old(self)@.results + image_blocks(image_views(images@)),
                ..old(self)@
            }),
    {
        let ghost all = image_blocks(image_views(images@));
        let mut i: usize = 0;
        assert(self@.results + all.take(0) =~= self@.results);
        while i < images.len()
            invariant
                all == image_blocks(image_views(images@)),
                i <= images@.len(),
                self@ == (BatchView {
                    results: old(self)@.results + all.take(i as int),
                    ..old(self)@
                }),
            decreases images@.len() - i,
        {
            let ghost before = self.results@;
            self.results.push(
                MessageContentBlock::Image { source: images[i].clone(), cache_control: None },
            );
            assert(api::block_views(self.results@) =~= api::block_views(before).push(
                all[i as int],
            ));
            assert(old(self)@.results + all.take(i + 1) =~= (old(self)@.results + all.take(
                i as int,
            )).push(all[i as int]));
            i = i + 1;
        }
        assert(all.take(i as int) =~= all);
    }

    fn push_skipped(&mut self)
        requires
            old(self).next < old(self).calls@.len(),
        ensures
            final(self)@ == (BatchView {
                results: old(self)@.results + skipped_results(
                    old(self)@.calls.skip(old(self)@.next as int + 1),
                ),
                ..old(self)@
            }),
    {
        let ghost rest = self@.calls.skip(self@.next as int + 1);
        let ghost all = skipped_results(rest);
        let count = self.calls.len();
        let mut i: usize = self.next + 1;
        assert(self@.results + all.take(0) =~= self@.results);
        while i < count
            invariant
                count == self.calls@.len(),
                rest == old(self)@.calls.skip(old(self)@.next as int + 1),
                all == skipped_results(rest),
                self@.calls == old(self)@.calls,
                self.next == old(self).next,
                self.next < i <= self.calls@.len(),
                self@ == (BatchView {
                    results: old(self)@.results + all.take(i - self.next - 1),
                    ..old(self)@
                }),
            decreases count - i,
        {
            let ghost n = i - self.next - 1;
            assert(rest[n] == self.calls@[i as int]@);
            let id = self.calls[i].id.clone();
            let ghost before = self@.results;
            self.push_result(id, SKIPPED.to_owned());
            assert(self@.results =~= before.push(all[n]));
            assert(old(self)@.results + all.take(n + 1) =~= (old(self)@.results + all.take(
                n,
            )).push(all[n]));
            i = i + 1;
        }
        assert(all.take(i - self.next - 1) =~= all);
    }

    /// Takes the end of the next call into account. A failure answers the
    /// call with the error. Where the user declined a deletion, the calls
    /// that have not run yet are answered with a note and the batch is done.
    pub fn finish_current(
        &mut self,
        outcome: ToolOutcome,
        display_messages: &mut Vec<DisplayMessage>,
    )
        requires
            !old(self)@.is_done(),
        ensures
            final(self)@ == old(self)@.after(outcome@),
            model::display_views(final(display_messages)@) == model::display_views(
                old(display_messages)@,
            ).push(old(self)@.shown(outcome@)),
            old(self)@.wf() ==> final(self)@.wf(),
    {
        proof {
            if self@.wf() {
                every_call_is_answered_once(self@, outcome@);
            }
        }
        let count = self.calls.len();
        let call = &self.calls[self.next];
        assert(call@ == self@.calls[self@.next as int]);
        let id = call.id.clone();
        let tool_name = call.name.clone();
        let tool_input = call.input.clone();
        match outcome {
            ToolOutcome::Failed(error) => {
                model::push_display(
                    display_messages,
                    DisplayMessage::ToolExecution {
                        tool_name,
                        tool_input,
                        tool_output: error.clone(),
                    },
                );
                self.push_result(id, error);
                assert(self@.next < count);
                self.next = self.next + 1;
            },
            ToolOutcome::Output(output) => {
                model::push_display(
                    display_messages,
                    DisplayMessage::ToolExecution {
                        tool_name,
                        tool_input,
                        tool_output: output.display.clone(),
                    },
                );
                let declined = text::starts_with(output.text.as_str(), FILE_DELETION_CANCELLED)
                    || text::starts_with(output.text.as_str(), DIRECTORY_DELETION_CANCELLED);
                self.push_result(id, output.text);
                self.push_images(&output.images);
                if declined {
                    self.push_skipped();
                    self.cancelled = true;
                    self.next = count;
                } else {
                    assert(self@.next < count);
                    self.next = self.next + 1;
                }
            },
        }
    }
}

} // verus!
