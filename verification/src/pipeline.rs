//! The middleware pipeline: the stages that a request passes on its way to
//! a handler and that the response passes, in reverse, on its way back.
//!
//! A stage may have work to do on the request, on the response, or on
//! both. Such work is not the pipeline's own: it is named as a `Move`, and
//! whoever drives the pipeline does it and reports back with a `Signal`.
//! On the way in a stage may reject the request; the handler and the stages
//! further in are then passed over, and the stages further out still see
//! the response. The one piece of work that is the pipeline's own is to give
//! failures their shape where an `ErrorShape` stage is passed on the way
//! out.

use crate::error::{Error, ErrorView};
use crate::response::{failed, shaped, shaping_is_idempotent, Response, ResponseView};
use vstd::prelude::*;

verus! {

/// One interceptor of the pipeline.
#[derive(Clone, Copy, Debug, PartialEq, Eq, Structural)]
pub enum Stage {
    /// Records the request and the response that answers it.
    RequestLog,
    /// Reads the cookies of the request, and writes back those that the
    /// handler changed.
    Cookies,
    /// Finds the author that the request's session belongs to.
    Auth,
    /// Gives every failure of a handler the one shape that clients read.
    ErrorShape,
}

/// Whether a stage has work to do on the request.
pub open spec fn works_inbound(stage: Stage) -> bool {
    stage != Stage::ErrorShape
}

/// Whether a stage has work of its own to do on the response.
pub open spec fn works_outbound(stage: Stage) -> bool {
    stage == Stage::RequestLog || stage == Stage::Cookies
}

/// What the pipeline itself does to a response that passes a stage on the
/// way out.
pub open spec fn passed(stage: Stage, response: ResponseView) -> ResponseView {
    if stage == Stage::ErrorShape {
        shaped(response)
    } else {
        response
    }
}

/// Where a request is in the pipeline.
#[derive(Clone, Copy, Debug, PartialEq, Eq, Structural)]
pub enum Place {
    /// The stage with this index is at work on the request.
    Entering(usize),
    /// The handler is at work.
    Handling,
    /// The stage with this index is at work on the response.
    Leaving(usize),
    /// The response has been emitted.
    Out,
}

/// What the pipeline asks for next.
#[derive(Debug, PartialEq, Eq)]
pub enum Move {
    /// Let this stage work on the request, and report whether it lets the
    /// request proceed.
    Enter { stage: Stage, index: usize },
    /// Run the handler, and report what it returned.
    Invoke,
    /// Let this stage work on this response, and report the response as
    /// the stage leaves it.
    Leave { stage: Stage, index: usize, response: Response },
    /// Send this response: the request is answered.
    Emit(Response),
}

/// A move, as contracts see it.
pub enum MoveView {
    Enter { stage: Stage, index: usize },
    Invoke,
    Leave { stage: Stage, index: usize, response: ResponseView },
    Emit(ResponseView),
}

impl View for Move {
    type V = MoveView;

    open spec fn view(&self) -> MoveView {
        match self {
            Move::Enter { stage, index } => MoveView::Enter { stage: *stage, index: *index },
            Move::Invoke => MoveView::Invoke,
            Move::Leave { stage, index, response } => MoveView::Leave {
                stage: *stage,
                index: *index,
                response: response@,
            },
            Move::Emit(response) => MoveView::Emit(response@),
        }
    }
}

/// What came of a move.
#[derive(Debug, PartialEq, Eq)]
pub enum Signal {
    /// The stage lets the request proceed.
    Proceed,
    /// The stage answers the request itself.
    Reject(Response),
    /// The handler has returned.
    Handled(Result<Response, Error>),
    /// The stage has done its work on the response and leaves it so.
    Left(Response),
}

/// A signal, as contracts see it.
pub enum SignalView {
    Proceed,
    Reject(ResponseView),
    Handled(Result<ResponseView, ErrorView>),
    Left(ResponseView),
}

impl View for Signal {
    type V = SignalView;

    open spec fn view(&self) -> SignalView {
        match self {
            Signal::Proceed => SignalView::Proceed,
            Signal::Reject(response) => SignalView::Reject(response@),
            Signal::Handled(returned) => SignalView::Handled(
                match returned {
                    Ok(response) => Ok(response@),
                    Err(error) => Err(error@),
                },
            ),
            Signal::Left(response) => SignalView::Left(response@),
        }
    }
}

/// A request on its way through a pipeline.
#[derive(Debug, PartialEq, Eq)]
pub struct Passage {
    pub stages: Vec<Stage>,
    pub place: Place,
}

/// A passage, as contracts see it.
pub struct PassageView {
    pub stages: Seq<Stage>,
    pub place: Place,
}

impl View for Passage {
    type V = PassageView;

    open spec fn view(&self) -> PassageView {
        PassageView { stages: self.stages@, place: self.place }
    }
}

/// The move on the way in from the stage with index `from`: the first
/// stage from there on that has work to do on the request is entered, and
/// where there is none the handler is invoked.
pub open spec fn inbound(stages: Seq<Stage>, from: int) -> MoveView
    decreases stages.len() - from,
{
    if from < 0 || from >= stages.len() || from > usize::MAX {
        MoveView::Invoke
    } else if works_inbound(stages[from]) {
        MoveView::Enter { stage: stages[from], index: from as usize }
    } else {
        inbound(stages, from + 1)
    }
}

/// The move on the way out when the stages below index `below` are still
/// to be passed: the response passes them from the inside out, up to the
/// first that has work of its own to do on it, and where there is none it
/// is emitted.
pub open spec fn outbound(stages: Seq<Stage>, below: int, response: ResponseView) -> MoveView
    decreases below,
{
    if below <= 0 || below > stages.len() || below > usize::MAX {
        MoveView::Emit(response)
    } else if works_outbound(stages[below - 1]) {
        MoveView::Leave {
            stage: stages[below - 1],
            index: (below - 1) as usize,
            response: passed(stages[below - 1], response),
        }
    } else {
        outbound(stages, below - 1, passed(stages[below - 1], response))
    }
}

/// Where a request is once a move is asked for.
pub open spec fn place_of(asked: MoveView) -> Place {
    match asked {
        MoveView::Enter { index, .. } => Place::Entering(index),
        MoveView::Invoke => Place::Handling,
        MoveView::Leave { index, .. } => Place::Leaving(index),
        MoveView::Emit(_) => Place::Out,
    }
}

/// The response that stands for what a handler returned.
pub open spec fn returned(result: Result<ResponseView, ErrorView>) -> ResponseView {
    match result {
        Ok(response) => response,
        Err(error) => failed(error),
    }
}

/// The move that follows a signal. A signal that does not answer the move
/// asked for last ends the passage with an unexpected failure.
pub open spec fn move_after(passage: PassageView, signal: SignalView) -> MoveView {
    match (passage.place, signal) {
        (Place::Entering(index), SignalView::Proceed) => inbound(passage.stages, index + 1),
        (Place::Entering(index), SignalView::Reject(response)) => outbound(
            passage.stages,
            index as int,
            response,
        ),
        (Place::Handling, SignalView::Handled(result)) => outbound(
            passage.stages,
            passage.stages.len() as int,
            returned(result),
        ),
        (Place::Leaving(index), SignalView::Left(response)) => outbound(
            passage.stages,
            index as int,
            response,
        ),
        _ => MoveView::Emit(failed(ErrorView::Unexpected)),
    }
}

/// The response that leaves the pipeline when it passes the stages below
/// index `below` and none of them changes it by work of its own.
pub open spec fn passed_out(stages: Seq<Stage>, below: int, response: ResponseView) -> ResponseView
    decreases below,
{
    if below <= 0 || below > stages.len() {
        response
    } else {
        passed_out(stages, below - 1, passed(stages[below - 1], response))
    }
}

/// A failure that passes an `ErrorShape` stage on its way out leaves the
/// pipeline in the one shape, whatever the other stages are, as long as
/// none of them changes it by work of its own; and a response that carries
/// no error leaves as it came.
pub proof fn failures_leave_shaped(stages: Seq<Stage>, below: int, response: ResponseView)
    requires
        0 <= below <= stages.len(),
    ensures
        response.error is None ==> passed_out(stages, below, response) == response,
        (exists|k: int| 0 <= k < below && stages[k] == Stage::ErrorShape) ==> passed_out(
            stages,
            below,
            response,
        ) == shaped(response),
        passed_out(stages, below, response) == response || passed_out(stages, below, response)
            == shaped(response),
    decreases below,
{
    if below > 0 {
        let stage = stages[below - 1];
        failures_leave_shaped(stages, below - 1, passed(stage, response));
        shaping_is_idempotent(response);
        if exists|k: int| 0 <= k < below && stages[k] == Stage::ErrorShape {
            let k = choose|k: int| 0 <= k < below && stages[k] == Stage::ErrorShape;
            if k < below - 1 {
                assert(0 <= k < below - 1 && stages[k] == Stage::ErrorShape);
            }
        }
    }
}

/// On the way in the stages are entered in their order: the stage entered
/// next stands at or after `from`, and every stage passed over on the way
/// to it has no work to do on a request. The handler is invoked only once
/// no stage with such work is left.
pub proof fn stages_enter_in_order(stages: Seq<Stage>, from: int)
    requires
        0 <= from,
        stages.len() <= usize::MAX,
    ensures
        match inbound(stages, from) {
            MoveView::Enter { stage, index } => from <= index < stages.len() && stage == stages[index as int]
                && works_inbound(stage) && forall|k: int|
                from <= k < index ==> !works_inbound(#[trigger] stages[k]),
            MoveView::Invoke => forall|k: int|
                from <= k < stages.len() ==> !works_inbound(#[trigger] stages[k]),
            _ => false,
        },
    decreases stages.len() - from,
{
    if from < stages.len() && !works_inbound(stages[from]) {
        stages_enter_in_order(stages, from + 1);
    }
}

/// On the way out the stages are left in reverse: the stage left next
/// stands below `below`, it is handed the response as the stages passed on
/// the way to it leave it, and once none with work of its own is left the
/// response is emitted. The way out never leads back in.
pub proof fn stages_leave_in_reverse(stages: Seq<Stage>, below: int, response: ResponseView)
    requires
        0 <= below <= stages.len(),
        stages.len() <= usize::MAX,
    ensures
        match outbound(stages, below, response) {
            MoveView::Leave { stage, index, response: handed } => index < below && stage
                == stages[index as int] && works_outbound(stage) && handed == passed_out(
                stages.subrange(index as int, below),
                below - index,
                response,
            ),
            MoveView::Emit(sent) => sent == passed_out(stages, below, response),
            _ => false,
        },
    decreases below,
{
    if below > 0 {
        let stage = stages[below - 1];
        let next = passed(stage, response);
        if works_outbound(stage) {
            let one = stages.subrange(below - 1, below);
            assert(one[0] == stage);
            assert(passed_out(one, 1, response) == passed_out(one, 0, passed(one[0], response)));
        } else {
            stages_leave_in_reverse(stages, below - 1, next);
            match outbound(stages, below - 1, next) {
                MoveView::Leave { index, .. } => {
                    let part = stages.subrange(index as int, below);
                    let shorter = stages.subrange(index as int, below - 1);
                    assert(part[below - index - 1] == stage);
                    passed_out_reads_below(part, shorter, below - index - 1, next);
                },
                _ => {},
            }
        }
    }
}

/// Once a stage has rejected the request or the handler has returned, the
/// passage only leads out: no stage is entered any more and the handler is
/// not invoked, so the handler runs at most once and never after a
/// rejection.
pub proof fn the_way_out_never_turns_back(passage: PassageView, signal: SignalView)
    requires
        passage.stages.len() <= usize::MAX,
        !(passage.place is Entering && signal is Proceed),
    ensures
        move_after(passage, signal) is Leave || move_after(passage, signal) is Emit,
{
    match (passage.place, signal) {
        (Place::Entering(index), SignalView::Reject(response)) => {
            if index <= passage.stages.len() {
                stages_leave_in_reverse(passage.stages, index as int, response);
            }
        },
        (Place::Handling, SignalView::Handled(result)) => {
            stages_leave_in_reverse(passage.stages, passage.stages.len() as int, returned(result));
        },
        (Place::Leaving(index), SignalView::Left(response)) => {
            if index <= passage.stages.len() {
                stages_leave_in_reverse(passage.stages, index as int, response);
            }
        },
        _ => {},
    }
}

/// What is handed to a stage on the way out leads, through the stages
/// below it, to the response that the whole way out leads to, as long as
/// no stage changes it by work of its own.
pub proof fn what_is_left_leads_out(stages: Seq<Stage>, below: int, response: ResponseView)
    requires
        0 <= below <= stages.len(),
        stages.len() <= usize::MAX,
    ensures
        match outbound(stages, below, response) {
            MoveView::Leave { index, response: handed, .. } => index < below && passed_out(
                stages,
                index as int,
                handed,
            ) == passed_out(stages, below, response),
            MoveView::Emit(sent) => sent == passed_out(stages, below, response),
            _ => false,
        },
    decreases below,
{
    if below > 0 && !works_outbound(stages[below - 1]) {
        what_is_left_leads_out(stages, below - 1, passed(stages[below - 1], response));
    }
}

/// The way out through the stages below an index goes by those stages
/// alone.
pub proof fn passed_out_reads_below(
    a: Seq<Stage>,
    b: Seq<Stage>,
    below: int,
    response: ResponseView,
)
    requires
        0 <= below <= a.len(),
        below <= b.len(),
        forall|k: int| 0 <= k < below ==> a[k] == b[k],
    ensures
        passed_out(a, below, response) == passed_out(b, below, response),
    decreases below,
{
    if below > 0 {
        passed_out_reads_below(a, b, below - 1, passed(a[below - 1], response));
    }
}

/// A copy of a list of stages.
pub fn copy_stages(stages: &Vec<Stage>) -> (copy: Vec<Stage>)
    ensures
        copy@ == stages@,
{
    let mut copy: Vec<Stage> = Vec::new();
    let mut i: usize = 0;
    while i < stages.len()
        invariant
            i <= stages.len(),
            copy@ == stages@.subrange(0, i as int),
        decreases stages.len() - i,
    {
        copy.push(stages[i]);
        i = i + 1;
        assert(copy@ =~= stages@.subrange(0, i as int));
    }
    assert(stages@.subrange(0, stages.len() as int) =~= stages@);
    copy
}

impl Stage {
    /// Whether the stage has work to do on the request.
    pub fn works_inbound(self) -> (yes: bool)
        ensures
            yes == works_inbound(self),
    {
        match self {
            Stage::ErrorShape => false,
            _ => true,
        }
    }

    /// Whether the stage has work of its own to do on the response.
    pub fn works_outbound(self) -> (yes: bool)
        ensures
            yes == works_outbound(self),
    {
        match self {
            Stage::RequestLog => true,
            Stage::Cookies => true,
            _ => false,
        }
    }

    /// What the pipeline itself does to a response that passes the stage
    /// on the way out.
    pub fn pass(self, response: Response) -> (out: Response)
        ensures
            out@ == passed(self, response@),
    {
        match self {
            Stage::ErrorShape => response.shaped(),
            _ => response,
        }
    }
}

impl Passage {
    fn go_in(stages: &Vec<Stage>, from: usize) -> (asked: Move)
        ensures
            asked@ == inbound(stages@, from as int),
    {
        let mut i: usize = from;
        while i < stages.len()
            invariant
                from <= i,
                inbound(stages@, from as int) == inbound(stages@, i as int),
            decreases stages.len() - i,
        {
            if stages[i].works_inbound() {
                return Move::Enter { stage: stages[i], index: i };
            }
            i = i + 1;
        }
        Move::Invoke
    }

    fn go_out(stages: &Vec<Stage>, below: usize, response: Response) -> (asked: Move)
        ensures
            asked@ == outbound(stages@, below as int, response@),
    {
        if below > stages.len() {
            return Move::Emit(response);
        }
        let ghost given = response@;
        let mut i: usize = below;
        let mut current = response;
        while i > 0
            invariant
                i <= below <= stages.len(),
                given == response@,
                outbound(stages@, below as int, given) == outbound(stages@, i as int, current@),
            decreases i,
        {
            let stage = stages[i - 1];
            current = stage.pass(current);
            if stage.works_outbound() {
                return Move::Leave { stage, index: i - 1, response: current };
            }
            i = i - 1;
        }
        Move::Emit(current)
    }

    fn place_of(asked: &Move) -> (place: Place)
        ensures
            place == place_of(asked@),
    {
        match asked {
            Move::Enter { index, .. } => Place::Entering(*index),
            Move::Invoke => Place::Handling,
            Move::Leave { index, .. } => Place::Leaving(*index),
            Move::Emit(_) => Place::Out,
        }
    }

    /// Sends a request into a pipeline.
    pub fn start(stages: Vec<Stage>) -> (step: (Passage, Move))
        ensures
            step.1@ == inbound(stages@, 0),
            step.0@ == (PassageView { stages: stages@, place: place_of(step.1@) }),
    {
        let asked = Passage::go_in(&stages, 0);
        let place = Passage::place_of(&asked);
        (Passage { stages, place }, asked)
    }

    /// Takes what came of the move asked for last, and asks for the next.
    pub fn advance(self, signal: Signal) -> (step: (Passage, Move))
        ensures
            step.1@ == move_after(self@, signal@),
            step.0@ == (PassageView { stages: self@.stages, place: place_of(step.1@) }),
    {
        let asked = match (self.place, signal) {
            (Place::Entering(index), Signal::Proceed) => {
                if index < usize::MAX {
                    Passage::go_in(&self.stages, index + 1)
                } else {
                    Move::Invoke
                }
            },
            (Place::Entering(index), Signal::Reject(response)) => Passage::go_out(
                &self.stages,
                index,
                response,
            ),
            (Place::Handling, Signal::Handled(Ok(response))) => Passage::go_out(
                &self.stages,
                self.stages.len(),
                response,
            ),
            (Place::Handling, Signal::Handled(Err(error))) => Passage::go_out(
                &self.stages,
                self.stages.len(),
                Response::from_error(&error),
            ),
            (Place::Leaving(index), Signal::Left(response)) => Passage::go_out(
                &self.stages,
                index,
                response,
            ),
            _ => Move::Emit(Response::from_error(&Error::Unexpected)),
        };
        let place = Passage::place_of(&asked);
        (Passage { stages: self.stages, place }, asked)
    }
}

} // verus!
