//! A client's connection to the daemon: lines in, one response line for each
//! request out.
//!
//! The connection takes one input at a time and says what to write, what work
//! to do and what to go on with.

use crate::daemon::{
    follow_up, invalid_request, request_on_line, DaemonRequest, DaemonResponse, FollowUp,
};
use crate::dialogue::{advance, begin, Action, Event, Pending, Step};
use vstd::prelude::*;

verus! {

/// Where a connection stands.
#[derive(Debug)]
pub enum Connection {
    /// It reads the next line.
    Reading,
    /// It answers a request, and waits for work to come out.
    Answering { pending: Pending, next: FollowUp },
    /// It streams zone events until the client disconnects.
    Streaming,
    /// It has asked the daemon to shut down.
    ShuttingDown,
    /// The client has sent its last line.
    Closed,
}

/// What a connection takes.
#[derive(Debug)]
pub enum Input {
    /// A line, and how the text on it reads as a request: the request, or why
    /// it is none. How a blank line reads does not matter.
    Line { line: String, reading: Result<DaemonRequest, String> },
    /// The end of the client's lines.
    End,
    /// How a piece of work came out.
    Work(Event),
}

/// What a connection does on an input: it writes the response, if any, does
/// the work, if any, and goes on.
#[derive(Debug)]
pub struct Reaction {
    pub response: Option<DaemonResponse>,
    pub work: Option<Action>,
    pub connection: Connection,
}

/// The input is one that the connection can take.
pub open spec fn takes(connection: Connection, input: Input) -> bool {
    match (connection, input) {
        (Connection::Reading, Input::Line { .. }) => true,
        (Connection::Reading, Input::End) => true,
        (Connection::Answering { pending, .. }, Input::Work(event)) => crate::dialogue::awaits(
            pending,
            event,
        ),
        _ => false,
    }
}

/// Where a connection stands once a request has been answered.
pub open spec fn after_answer(next: FollowUp) -> Connection {
    match next {
        FollowUp::ReadOn => Connection::Reading,
        FollowUp::StreamEvents => Connection::Streaming,
        FollowUp::ShutDown => Connection::ShuttingDown,
    }
}

/// The reaction carries a step of a dialogue out: the answer is written, or the
/// work that it needs is done.
pub open spec fn carries(step: Step, next: FollowUp, r: Reaction) -> bool {
    match step {
        Step::Done(response) => r == (Reaction {
            response: Some(response),
            work: None,
            connection: after_answer(next),
        }),
        Step::Ask { action, pending } => r == (Reaction {
            response: None,
            work: Some(action),
            connection: Connection::Answering { pending, next },
        }),
    }
}

/// The response to a line that is no request, for the reason given.
pub open spec fn refuses(problem: Seq<char>, response: DaemonResponse) -> bool {
    &&& !response.success
    &&& response.message@ == "Invalid request: "@ + problem
    &&& response.data is None
}

/// The line holds nothing but white space.
pub open spec fn is_blank(line: Seq<char>) -> bool {
    crate::text::trimmed(line).len() == 0
}

/// How a connection reacts to a line.
pub open spec fn reacts_to_line(
    line: Seq<char>,
    reading: Result<DaemonRequest, String>,
    r: Reaction,
) -> bool {
    if is_blank(line) {
        r == (Reaction { response: None, work: None, connection: Connection::Reading })
    } else {
        match reading {
            Ok(request) => exists|step: Step| #[trigger]
                crate::dialogue::begins(request, step) && carries(
                    step,
                    crate::daemon::follow_up_of(request),
                    r,
                ),
            Err(problem) => {
                &&& r.response matches Some(response)
                &&& refuses(problem@, response)
                &&& r.work is None
                &&& r.connection is Reading
            },
        }
    }
}

/// How a connection reacts to an input that it takes.
pub open spec fn reacts(connection: Connection, input: Input, r: Reaction) -> bool {
    match (connection, input) {
        (_, Input::Line { line, reading }) => reacts_to_line(line@, reading, r),
        (_, Input::End) => r == (Reaction {
            response: None,
            work: None,
            connection: Connection::Closed,
        }),
        (Connection::Answering { pending, next }, Input::Work(event)) => exists|step: Step|
            #[trigger] crate::dialogue::goes_on(pending, event, step) && carries(step, next, r),
        _ => false,
    }
}

/// Carries a step of a dialogue out.
fn carry(step: Step, next: FollowUp) -> (r: Reaction)
    ensures
        carries(step, next, r),
{
    match step {
        Step::Done(response) => {
            let connection = match next {
                FollowUp::ReadOn => Connection::Reading,
                FollowUp::StreamEvents => Connection::Streaming,
                FollowUp::ShutDown => Connection::ShuttingDown,
            };
            Reaction { response: Some(response), work: None, connection }
        },
        Step::Ask { action, pending } => Reaction {
            response: None,
            work: Some(action),
            connection: Connection::Answering { pending, next },
        },
    }
}

impl Connection {
    /// A new connection reads.
    pub fn open() -> (r: Connection)
        ensures
            r is Reading,
    {
        Connection::Reading
    }

    /// Whether the input is one that the connection can take.
    pub fn can_take(&self, input: &Input) -> (r: bool)
        ensures
            r == takes(*self, *input),
    {
        match (self, input) {
            (Connection::Reading, Input::Line { .. }) => true,
            (Connection::Reading, Input::End) => true,
            (Connection::Answering { pending, .. }, Input::Work(event)) => {
                crate::dialogue::accepts(pending, event)
            },
            _ => false,
        }
    }

    /// Takes an input.
    pub fn take(self, input: Input) -> (r: Reaction)
        requires
            takes(self, input),
        ensures
            reacts(self, input, r),
    {
        match (self, input) {
            (Connection::Reading, Input::Line { line, reading }) => {
                match request_on_line(line.as_str()) {
                    None => Reaction {
                        response: None,
                        work: None,
                        connection: Connection::Reading,
                    },
                    Some(_) => match reading {
                        Ok(request) => {
                            let next = follow_up(&request);
                            carry(begin(request), next)
                        },
                        Err(problem) => Reaction {
                            response: Some(invalid_request(problem.as_str())),
                            work: None,
                            connection: Connection::Reading,
                        },
                    },
                }
            },
            (Connection::Reading, Input::End) => Reaction {
                response: None,
                work: None,
                connection: Connection::Closed,
            },
            (Connection::Answering { pending, next }, Input::Work(event)) => {
                carry(advance(pending, event), next)
            },
            _ => vstd::pervasive::unreached(),
        }
    }
}

// ── Whole conversations ─────────────────────────────────────────────

/// A conversation: the inputs that a connection took, one after the other, and
/// how it reacted to each.
pub open spec fn converses(inputs: Seq<Input>, reactions: Seq<Reaction>) -> bool {
    &&& inputs.len() == reactions.len()
    &&& forall|i: int|
        0 <= i < inputs.len() ==> {
            &&& takes(standing(reactions, i), #[trigger] inputs[i])
            &&& reacts(standing(reactions, i), inputs[i], reactions[i])
        }
}

/// Where the connection stands after the first `n` reactions.
pub open spec fn standing(reactions: Seq<Reaction>, n: int) -> Connection {
    if n <= 0 {
        Connection::Reading
    } else {
        reactions[n - 1].connection
    }
}

/// How the lines that are not blank read, in order.
pub open spec fn asked(inputs: Seq<Input>) -> Seq<Result<DaemonRequest, String>>
    decreases inputs.len(),
{
    if inputs.len() == 0 {
        Seq::empty()
    } else {
        match inputs.last() {
            Input::Line { line, reading } if !is_blank(line@) => asked(inputs.drop_last()).push(
                reading,
            ),
            _ => asked(inputs.drop_last()),
        }
    }
}

/// The responses that are written, in order.
pub open spec fn answered(reactions: Seq<Reaction>) -> Seq<DaemonResponse>
    decreases reactions.len(),
{
    if reactions.len() == 0 {
        Seq::empty()
    } else {
        match reactions.last().response {
            Some(response) => answered(reactions.drop_last()).push(response),
            None => answered(reactions.drop_last()),
        }
    }
}

/// The event leads a dialogue from one step to the next.
pub open spec fn moves(step: Step, event: Event, next: Step) -> bool {
    match step {
        Step::Ask { pending, .. } => crate::dialogue::goes_on(pending, event, next),
        Step::Done(_) => false,
    }
}

/// The steps are those of a dialogue about the request, which the events lead
/// from each step to the next.
pub open spec fn leads(request: DaemonRequest, steps: Seq<Step>, events: Seq<Event>) -> bool {
    &&& steps.len() == events.len() + 1
    &&& crate::dialogue::begins(request, steps[0])
    &&& forall|i: int|
        0 <= i < events.len() ==> moves(steps[i], #[trigger] events[i], steps[i + 1])
}

/// The dialogue about a request can come to this step.
pub open spec fn reaches(request: DaemonRequest, step: Step) -> bool {
    exists|steps: Seq<Step>, events: Seq<Event>| #[trigger]
        leads(request, steps, events) && steps.last() == step
}

/// The response is one to the line: one that the dialogue about its request
/// ends with, or the refusal of what is no request.
pub open spec fn responds(
    reading: Result<DaemonRequest, String>,
    response: DaemonResponse,
) -> bool {
    match reading {
        Ok(request) => reaches(request, Step::Done(response)),
        Err(problem) => refuses(problem@, response),
    }
}

/// The connection reads on after this line.
pub open spec fn keeps_open(input: Input) -> bool {
    match input {
        Input::Line { line, reading: Ok(request) } => is_blank(line@)
            || crate::daemon::follow_up_of(request) == FollowUp::ReadOn,
        Input::End => false,
        _ => true,
    }
}

proof fn lemma_first_step(request: DaemonRequest, first: Step)
    requires
        crate::dialogue::begins(request, first),
    ensures
        reaches(request, first),
{
    assert(leads(request, seq![first], Seq::empty()));
}

proof fn lemma_next_step(
    request: DaemonRequest,
    action: Action,
    pending: Pending,
    event: Event,
    step: Step,
)
    requires
        reaches(request, Step::Ask { action, pending }),
        crate::dialogue::goes_on(pending, event, step),
    ensures
        reaches(request, step),
{
    let (steps, events) = choose|steps: Seq<Step>, events: Seq<Event>| #[trigger]
        leads(request, steps, events) && steps.last() == (Step::Ask { action, pending });
    let more = events.push(event);
    let further = steps.push(step);
    assert forall|i: int| 0 <= i < more.len() implies moves(
        further[i],
        #[trigger] more[i],
        further[i + 1],
    ) by {
        if i < events.len() {
            assert(events[i] == more[i]);
        }
    }
    assert(further[0] == steps[0]);
    assert(leads(request, further, more));
    assert(further.last() == step);
}

/// What holds at any point of a conversation.
spec fn in_step(inputs: Seq<Input>, reactions: Seq<Reaction>) -> bool {
    let questions = asked(inputs);
    let answers = answered(reactions);
    let open = standing(reactions, reactions.len() as int);
    &&& forall|k: int|
        0 <= k < answers.len() ==> responds(#[trigger] questions[k], answers[k])
    &&& match open {
        Connection::Answering { pending, next } => {
            &&& questions.len() == answers.len() + 1
            &&& questions.last() matches Ok(request)
            &&& next == crate::daemon::follow_up_of(request)
            &&& exists|action: Action| #[trigger] reaches(request, Step::Ask { action, pending })
        },
        _ => questions.len() == answers.len(),
    }
}

proof fn lemma_in_step(inputs: Seq<Input>, reactions: Seq<Reaction>)
    requires
        converses(inputs, reactions),
    ensures
        in_step(inputs, reactions),
    decreases inputs.len(),
{
    if inputs.len() > 0 {
        let n = inputs.len() - 1;
        let before = inputs.drop_last();
        let past = reactions.drop_last();
        assert(converses(before, past)) by {
            assert forall|i: int| 0 <= i < before.len() implies {
                &&& takes(standing(past, i), #[trigger] before[i])
                &&& reacts(standing(past, i), before[i], past[i])
            } by {
                assert(before[i] == inputs[i]);
                assert(standing(past, i) == standing(reactions, i));
            }
        }
        lemma_in_step(before, past);
        let open = standing(reactions, n);
        assert(standing(past, n) == open);
        let input = inputs[n];
        let reaction = reactions[n];
        assert(takes(open, input) && reacts(open, input, reaction));
        match input {
            Input::Line { line, reading } => {
                if !is_blank(line@) {
                    if let Ok(request) = reading {
                        let step = choose|step: Step| #[trigger]
                            crate::dialogue::begins(request, step) && carries(
                                step,
                                crate::daemon::follow_up_of(request),
                                reaction,
                            );
                        lemma_first_step(request, step);
                    }
                }
            },
            Input::Work(event) => {
                if let Connection::Answering { pending, next } = open {
                    let request = asked(before).last()->Ok_0;
                    let action = choose|action: Action| #[trigger]
                        reaches(request, Step::Ask { action, pending });
                    let step = choose|step: Step| #[trigger]
                        crate::dialogue::goes_on(pending, event, step) && carries(
                            step,
                            next,
                            reaction,
                        );
                    lemma_next_step(request, action, pending, event, step);
                }
            },
            Input::End => {},
        }
    }
}

/// Each line that is not blank gets exactly one response, in order, and blank
/// lines get none: the k-th response is one to the k-th such line, and where
/// the connection waits for no work, every such line has its response. A line
/// that is no request is refused with the reason.
pub proof fn law_each_line_gets_one_response(inputs: Seq<Input>, reactions: Seq<Reaction>)
    requires
        converses(inputs, reactions),
    ensures
        standing(reactions, reactions.len() as int) !is Answering ==> answered(reactions).len()
            == asked(inputs).len(),
        standing(reactions, reactions.len() as int) is Answering ==> answered(reactions).len() + 1
            == asked(inputs).len(),
        forall|k: int|
            0 <= k < answered(reactions).len() ==> responds(
                #[trigger] asked(inputs)[k],
                answered(reactions)[k],
            ),
{
    lemma_in_step(inputs, reactions);
}

/// Only a request to shut down, a subscription or the end of the lines ends
/// the reading: after any other lines, requests or not, the connection reads
/// on, or works on an answer after which it will.
pub proof fn law_reading_goes_on(inputs: Seq<Input>, reactions: Seq<Reaction>)
    requires
        converses(inputs, reactions),
        forall|i: int| 0 <= i < inputs.len() ==> keeps_open(#[trigger] inputs[i]),
    ensures
        match standing(reactions, reactions.len() as int) {
            Connection::Reading => true,
            Connection::Answering { next, .. } => next == FollowUp::ReadOn,
            _ => false,
        },
    decreases inputs.len(),
{
    if inputs.len() > 0 {
        let n = inputs.len() - 1;
        let before = inputs.drop_last();
        let past = reactions.drop_last();
        assert forall|i: int| 0 <= i < before.len() implies {
            &&& takes(standing(past, i), #[trigger] before[i])
            &&& reacts(standing(past, i), before[i], past[i])
            &&& keeps_open(before[i])
        } by {
            assert(before[i] == inputs[i]);
            assert(standing(past, i) == standing(reactions, i));
        }
        law_reading_goes_on(before, past);
        assert(standing(past, n) == standing(reactions, n));
        assert(keeps_open(inputs[n]));
        assert(reacts(standing(reactions, n), inputs[n], reactions[n]));
    }
}

/// A client that sends its lines and closes, without a request to shut down or
/// a subscription among them, gets one response to each line that is not
/// blank, in order, and the connection closes.
pub proof fn law_whole_connection(inputs: Seq<Input>, reactions: Seq<Reaction>)
    requires
        converses(inputs, reactions),
        inputs.len() > 0,
        inputs.last() is End,
        forall|i: int| 0 <= i < inputs.len() - 1 ==> keeps_open(#[trigger] inputs[i]),
    ensures
        standing(reactions, reactions.len() as int) is Closed,
        answered(reactions).len() == asked(inputs).len(),
        forall|k: int|
            0 <= k < asked(inputs).len() ==> responds(
                #[trigger] asked(inputs)[k],
                answered(reactions)[k],
            ),
{
    let n = inputs.len() - 1;
    assert(reacts(standing(reactions, n), inputs[n], reactions[n]));
    law_each_line_gets_one_response(inputs, reactions);
}

/// A line that is no request does not end the connection: it is refused, and
/// the next line is read.
pub proof fn law_invalid_line_is_refused(line: Seq<char>, problem: String, r: Reaction)
    requires
        !is_blank(line),
        reacts_to_line(line, Err(problem), r),
    ensures
        r.response matches Some(response) && refuses(problem@, response),
        r.response matches Some(response) && !response.success && response.data is None
            && response.message@ == "Invalid request: "@ + problem@,
        r.work is None,
        r.connection is Reading,
{
}

/// What a request leads to: while its answer needs work, that work is asked for
/// and nothing is written; with the answer the connection reads on, streams
/// events after a subscription, or shuts down after a request to.
pub proof fn law_what_a_request_leads_to(line: Seq<char>, request: DaemonRequest, r: Reaction)
    requires
        !is_blank(line),
        reacts_to_line(line, Ok(request), r),
    ensures
        r.response is Some <==> r.work is None,
        r.response is Some <==> request is Ping || request is Shutdown
            || request is MonitorSubscribe,
        request is Ping ==> r.connection is Reading,
        request is Shutdown ==> r.connection is ShuttingDown,
        request is MonitorSubscribe ==> r.connection is Streaming,
        r.work is Some ==> (r.connection matches Connection::Answering { next, .. } && next
            == FollowUp::ReadOn),
{
    let step = choose|step: Step| #[trigger]
        crate::dialogue::begins(request, step) && carries(
            step,
            crate::daemon::follow_up_of(request),
            r,
        );
    crate::dialogue::law_answered_at_once(request, step);
}

/// A line is blank where it holds nothing but white space.
pub proof fn law_blank_lines(line: Seq<char>)
    ensures
        is_blank(line) <==> forall|i: int|
            0 <= i < line.len() ==> crate::text::is_space(#[trigger] line[i]),
{
    let ends = crate::text::law_trimming_takes_white_space(line);
    let text = crate::text::trimmed(line);
    if text.len() > 0 {
        assert(line[ends.0] == text.first());
    }
}

/// A connection takes lines only while it reads, and the outcome of work only
/// while it waits for it; once it streams, shuts down or is closed, nothing.
pub proof fn law_when_input_is_taken(connection: Connection, input: Input)
    ensures
        input is Line || input is End ==> (takes(connection, input) <==> connection is Reading),
        input is Work ==> (takes(connection, input) ==> connection is Answering),
{
}

/// What the outcome of work leads to: more work, with which the connection stays
/// where it was, or the answer, after which it goes on as the request asked.
pub proof fn law_work_leads_to_the_answer(
    pending: Pending,
    next: FollowUp,
    event: Event,
    r: Reaction,
)
    requires
        reacts(Connection::Answering { pending, next }, Input::Work(event), r),
    ensures
        r.response is Some <==> r.work is None,
        r.work is Some ==> (r.connection matches Connection::Answering { next: n, .. } && n == next),
        r.response is Some ==> match next {
            FollowUp::ReadOn => r.connection is Reading,
            FollowUp::StreamEvents => r.connection is Streaming,
            FollowUp::ShutDown => r.connection is ShuttingDown,
        },
        r.response matches Some(response) ==> crate::dialogue::goes_on(
            pending,
            event,
            Step::Done(response),
        ),
{
}

/// The end of the lines closes the connection, and a blank line changes nothing;
/// neither is answered.
pub proof fn law_what_is_not_answered(connection: Connection, input: Input, r: Reaction)
    requires
        reacts(connection, input, r),
        takes(connection, input),
    ensures
        input is End ==> r.connection is Closed && r.response is None && r.work is None,
        input matches Input::Line { line, .. } ==> ((forall|i: int|
            0 <= i < line@.len() ==> crate::text::is_space(#[trigger] line@[i])) ==> r.connection
            == connection && r.response is None && r.work is None),
{
    if let Input::Line { line, .. } = input {
        law_blank_lines(line@);
    }
}

} // verus!
