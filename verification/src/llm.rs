//! What a language model answers, whole or in pieces.
use vstd::prelude::*;

use crate::error::{ErrorView, WorkflowError};
use crate::text::cat2;
use crate::value::{Json, JsonView};
use vstd::string::StringExecFns;

verus! {

/// Whether a piece is followed by others.
#[derive(Clone, Copy, Debug, PartialEq, Eq, Structural)]
pub enum ChunkStatus {
    /// A piece of the answer.
    Data,
    /// The end of the answer.
    Finish,
}

/// A piece of an answer.
#[derive(Debug)]
pub struct StreamChunk {
    pub status: ChunkStatus,
    pub content: String,
}

/// What a piece holds.
#[verifier::ext_equal]
pub struct ChunkView {
    pub status: ChunkStatus,
    pub content: Seq<char>,
}

impl View for StreamChunk {
    type V = ChunkView;

    open spec fn view(&self) -> ChunkView {
        ChunkView { status: self.status, content: self.content@ }
    }
}

impl StreamChunk {
    /// A piece with the given text.
    pub fn data(content: String) -> (r: StreamChunk)
        ensures
            r@ == (ChunkView { status: ChunkStatus::Data, content: content@ }),
    {
        StreamChunk { status: ChunkStatus::Data, content }
    }

    /// The end of an answer.
    pub fn finish(content: String) -> (r: StreamChunk)
        ensures
            r@ == (ChunkView { status: ChunkStatus::Finish, content: content@ }),
    {
        StreamChunk { status: ChunkStatus::Finish, content }
    }

    /// Whether this is the end of an answer.
    pub fn is_finish(&self) -> (r: bool)
        ensures
            r == (self@.status == ChunkStatus::Finish),
    {
        self.status == ChunkStatus::Finish
    }
}

/// The views of a list of pieces.
pub open spec fn chunk_views(v: Seq<StreamChunk>) -> Seq<ChunkView> {
    Seq::new(v.len(), |i: int| v[i]@)
}

/// The texts of the data pieces of a list, one after the other.
pub open spec fn answer_text(chunks: Seq<ChunkView>) -> Seq<char>
    decreases chunks.len(),
{
    if chunks.len() == 0 {
        Seq::empty()
    } else {
        let front = answer_text(chunks.drop_last());
        if chunks.last().status == ChunkStatus::Data {
            front + chunks.last().content
        } else {
            front
        }
    }
}

/// What became of a value that was sent to the host.
#[derive(Debug)]
pub enum SendOutcome {
    /// It was sent, or the host wants none.
    Sent,
    /// The channel is closed; the wording of the error.
    Closed(String),
}

/// What a closed channel is reported as.
pub open spec fn send_error(o: SendOutcome) -> Option<ErrorView> {
    match o {
        SendOutcome::Sent => None,
        SendOutcome::Closed(text) => Some(ErrorView::Other("outbound channel closed: "@ + text@)),
    }
}

/// The error of a value that could not be sent.
pub fn closed_channel(o: &SendOutcome) -> (r: Option<WorkflowError>)
    ensures
        crate::error::option_view(r) == send_error(*o),
{
    match o {
        SendOutcome::Sent => None,
        SendOutcome::Closed(text) => Some(
            WorkflowError::Other(cat2("outbound channel closed: ", text.as_str())),
        ),
    }
}

/// The last error of passing pieces on, after one more was passed on.
pub open spec fn last_error(before: Option<ErrorView>, outcome: SendOutcome) -> Option<ErrorView> {
    match send_error(outcome) {
        Some(e) => Some(e),
        None => before,
    }
}

/// The answer, once the model has ended with the given result: the model's error, else
/// the error of passing a piece on, else the text.
pub open spec fn collected(
    result: Result<(), ErrorView>,
    error: Option<ErrorView>,
    text: Seq<char>,
) -> Result<Seq<char>, ErrorView> {
    match (result, error) {
        (Err(e), _) => Err(e),
        (Ok(_), Some(e)) => Err(e),
        (Ok(_), None) => Ok(text),
    }
}

/// Gathers the pieces of an answer.
#[derive(Debug)]
pub struct AnswerCollector {
    pub accumulated: String,
    /// The last error of passing a piece on.
    pub error: Option<WorkflowError>,
}

impl AnswerCollector {
    /// A collector without pieces.
    pub fn new() -> (r: AnswerCollector)
        ensures
            r.accumulated@ == answer_text(Seq::empty()),
            r.error is None,
    {
        AnswerCollector { accumulated: String::new(), error: None }
    }

    /// Takes a piece, and says what to pass on to the host: the text of a data piece.
    pub fn take(&mut self, chunk: &StreamChunk) -> (r: Option<Json>)
        ensures
            forall|before: Seq<ChunkView>|
                old(self).accumulated@ == answer_text(before) ==> final(self).accumulated@
                    == #[trigger] answer_text(before.push(chunk@)),
            chunk@.status == ChunkStatus::Data ==> final(self).accumulated@
                == old(self).accumulated@ + chunk@.content,
            chunk@.status != ChunkStatus::Data ==> final(self).accumulated@
                == old(self).accumulated@,
            final(self).error == old(self).error,
            crate::error::option_view(r) == (if chunk@.status == ChunkStatus::Data {
                Some(JsonView::Text(chunk@.content))
            } else {
                None
            }),
    {
        proof {
            assert forall|before: Seq<ChunkView>|
                self.accumulated@ == answer_text(before) implies (if chunk@.status
                == ChunkStatus::Data {
                self.accumulated@ + chunk@.content
            } else {
                self.accumulated@
            }) == #[trigger] answer_text(before.push(chunk@)) by {
                assert(before.push(chunk@).drop_last() =~= before);
            }
        }
        if chunk.status != ChunkStatus::Data {
            return None;
        }
        self.accumulated.append(chunk.content.as_str());
        Some(Json::String(chunk.content.clone()))
    }

    /// Notes what became of a piece that was passed on.
    pub fn passed_on(&mut self, outcome: &SendOutcome)
        ensures
            final(self).accumulated == old(self).accumulated,
            crate::error::option_view(final(self).error) == last_error(
                crate::error::option_view(old(self).error),
                *outcome,
            ),
    {
        if let Some(e) = closed_channel(outcome) {
            self.error = Some(e);
        }
    }

    /// The answer, once the model has ended with the given result: the model's
    /// error, else the error of passing a piece on, else the text.
    pub fn finish(self, result: Result<(), WorkflowError>) -> (r: Result<String, WorkflowError>)
        ensures
            crate::error::result_view(r) == collected(
                crate::error::unit_view(result),
                crate::error::option_view(self.error),
                self.accumulated@,
            ),
    {
        match result {
            Err(e) => Err(e),
            Ok(()) => match self.error {
                Some(e) => Err(e),
                None => Ok(self.accumulated),
            },
        }
    }
}

// ---------------------------------------------------------------------------
// Laws
// ---------------------------------------------------------------------------

/// The answer is the contents of the data pieces, one after the other: the answer of two
/// lists of pieces is that of the first and then that of the second, a data piece alone is
/// its content, and the piece that ends the answer adds nothing.
pub proof fn answer_is_the_pieces_in_order(
    a: Seq<ChunkView>,
    b: Seq<ChunkView>,
    content: Seq<char>,
)
    ensures
        answer_text(a + b) == answer_text(a) + answer_text(b),
        answer_text(seq![ChunkView { status: ChunkStatus::Data, content }]) == content,
        answer_text(seq![ChunkView { status: ChunkStatus::Finish, content }]).len() == 0,
        answer_text(Seq::empty()).len() == 0,
    decreases b.len(),
{
    let data = ChunkView { status: ChunkStatus::Data, content };
    let end = ChunkView { status: ChunkStatus::Finish, content };
    assert(seq![data].drop_last() =~= Seq::empty());
    assert(seq![end].drop_last() =~= Seq::empty());
    reveal_with_fuel(answer_text, 2);
    assert(Seq::<char>::empty() + content =~= content);
    if b.len() == 0 {
        assert(a + b =~= a);
        assert(answer_text(a) + Seq::<char>::empty() =~= answer_text(a));
    } else {
        answer_is_the_pieces_in_order(a, b.drop_last(), content);
        assert((a + b).drop_last() =~= a + b.drop_last());
        assert(answer_text(a) + answer_text(b.drop_last()) + b.last().content =~= answer_text(a)
            + (answer_text(b.drop_last()) + b.last().content));
    }
}

/// Sending fails exactly where the channel is closed.
pub proof fn closed_channel_is_an_error(text: String)
    ensures
        send_error(SendOutcome::Sent) is None,
        send_error(SendOutcome::Closed(text)) == Some(
            ErrorView::Other("outbound channel closed: "@ + text@),
        ),
{
}

/// The text that was gathered is the answer exactly where the model ended well and every
/// piece could be passed on; the error of the model comes before that of passing on. A
/// piece that was passed on leaves an error standing, and a later error replaces it.
pub proof fn answer_needs_model_and_channel(
    result: Result<(), ErrorView>,
    error: Option<ErrorView>,
    text: Seq<char>,
    reason: String,
)
    ensures
        collected(result, error, text) is Ok <==> result is Ok && error is None,
        collected(result, error, text) matches Ok(answer) ==> answer == text,
        result matches Err(e) ==> collected(result, error, text) == Err::<Seq<char>, ErrorView>(e),
        result is Ok ==> (error matches Some(e) ==> collected(result, error, text) == Err::<
            Seq<char>,
            ErrorView,
        >(e)),
        last_error(error, SendOutcome::Sent) == error,
        last_error(error, SendOutcome::Closed(reason)) == Some(
            ErrorView::Other("outbound channel closed: "@ + reason@),
        ),
{
}

} // verus!
