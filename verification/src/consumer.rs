//! The consumer: what happens to one delivery from the queue, step by step.
//!
//! The worker does no input or output. It is a state machine that a driver
//! runs: the driver carries out the command that the worker hands it, tells
//! the worker what came of it, and gets the next command. For each delivery
//! the commands are, in this order: archive the raw payload, decode it, carry
//! out the request (or report that there is none), acknowledge.

use vstd::prelude::*;
use crate::command::{Command, CommandView};
use crate::message::{NotificationKind, NotificationRequest, NotificationRequestView};
use crate::otp::otp_code_text;
use crate::router::{
    dispatch,
    dispatch_plan,
    lemma_route_commands,
    plan_dispatch,
    request_route,
};
use crate::store::{archive_write, archive_write_of};

verus! {

/// The queue that the worker consumes.
pub const QUEUE_NAME: &'static str = "notifications";

/// The name under which the worker subscribes to the queue.
pub const CONSUMER_TAG: &'static str = "worker";

/// What the driver tells the worker.
#[derive(Clone, Debug, PartialEq, Eq)]
pub enum Event {
    /// The queue delivered a message.
    Delivered { delivery_tag: u64, body: Vec<u8> },
    /// The payload was decoded: the request it holds, or `None` if it holds
    /// none.
    Decoded { request: Option<NotificationRequest> },
    /// The last command was carried out.
    Completed,
}

/// The mathematical content of an `Event`.
pub enum EventView {
    Delivered { delivery_tag: u64, body: Seq<u8> },
    Decoded { request: Option<NotificationRequestView> },
    Completed,
}

impl View for Event {
    type V = EventView;

    open spec fn view(&self) -> EventView {
        match self {
            Event::Delivered { delivery_tag, body } => EventView::Delivered {
                delivery_tag: *delivery_tag,
                body: body@,
            },
            Event::Decoded { request } => EventView::Decoded { request: request.deep_view() },
            Event::Completed => EventView::Completed,
        }
    }
}

/// Where the worker stands. Each state but `Idle` belongs to one delivery
/// and has one command outstanding with the driver.
#[derive(Clone, Debug, PartialEq, Eq)]
pub enum Worker {
    /// No delivery is being handled; the driver waits for the next one.
    Idle,
    /// The archive write of the delivery is outstanding.
    Archiving { delivery_tag: u64, body: Vec<u8> },
    /// The decoding of the payload is outstanding.
    Decoding { delivery_tag: u64, body: Vec<u8> },
    /// A command of the request is outstanding; `pending` holds those that
    /// follow it, next first.
    Dispatching { delivery_tag: u64, pending: Vec<Command> },
    /// The acknowledgement of the delivery is outstanding.
    Acknowledging { delivery_tag: u64 },
}

/// The mathematical content of a `Worker`.
pub enum WorkerView {
    Idle,
    Archiving { delivery_tag: u64, body: Seq<u8> },
    Decoding { delivery_tag: u64, body: Seq<u8> },
    Dispatching { delivery_tag: u64, pending: Seq<CommandView> },
    Acknowledging { delivery_tag: u64 },
}

impl View for Worker {
    type V = WorkerView;

    open spec fn view(&self) -> WorkerView {
        match self {
            Worker::Idle => WorkerView::Idle,
            Worker::Archiving { delivery_tag, body } => WorkerView::Archiving {
                delivery_tag: *delivery_tag,
                body: body@,
            },
            Worker::Decoding { delivery_tag, body } => WorkerView::Decoding {
                delivery_tag: *delivery_tag,
                body: body@,
            },
            Worker::Dispatching { delivery_tag, pending } => WorkerView::Dispatching {
                delivery_tag: *delivery_tag,
                pending: pending.deep_view(),
            },
            Worker::Acknowledging { delivery_tag } => WorkerView::Acknowledging {
                delivery_tag: *delivery_tag,
            },
        }
    }
}

/// What is done with a payload once the decoding is over: the plan of the
/// request, or, where the payload holds no request, a report of that and
/// nothing else.
pub open spec fn handling_plan(
    body: Seq<u8>,
    request: Option<NotificationRequestView>,
    draw: u32,
) -> Seq<CommandView> {
    match request {
        Some(request) => dispatch_plan(request, draw),
        None => seq![CommandView::ReportDecodeFailure { body }],
    }
}

/// The step that follows a finished command of a delivery: the next pending
/// command if there is one, the acknowledgement if there is none.
pub open spec fn advance(delivery_tag: u64, pending: Seq<CommandView>) -> (
    WorkerView,
    CommandView,
) {
    if pending.len() == 0 {
        (WorkerView::Acknowledging { delivery_tag }, CommandView::Acknowledge { delivery_tag })
    } else {
        (
            WorkerView::Dispatching { delivery_tag, pending: pending.drop_first() },
            pending.first(),
        )
    }
}

/// The worker's transition: the state and the command that follow `event` in
/// `state`, or `None` where the event does not belong to the state. `draw`
/// is the random number that gives the code of an `Otp` request; it plays no
/// part in any other step.
pub open spec fn transition(state: WorkerView, event: EventView, draw: u32) -> Option<
    (WorkerView, CommandView),
> {
    match (state, event) {
        (WorkerView::Idle, EventView::Delivered { delivery_tag, body }) => Some(
            (
                WorkerView::Archiving { delivery_tag, body },
                CommandView::Store(archive_write_of(delivery_tag, body)),
            ),
        ),
        (WorkerView::Archiving { delivery_tag, body }, EventView::Completed) => Some(
            (WorkerView::Decoding { delivery_tag, body }, CommandView::Decode { body }),
        ),
        (WorkerView::Decoding { delivery_tag, body }, EventView::Decoded { request }) => Some(
            advance(delivery_tag, handling_plan(body, request, draw)),
        ),
        (WorkerView::Dispatching { delivery_tag, pending }, EventView::Completed) => Some(
            advance(delivery_tag, pending),
        ),
        (WorkerView::Acknowledging { delivery_tag }, EventView::Completed) => Some(
            (WorkerView::Idle, CommandView::AwaitDelivery),
        ),
        _ => None,
    }
}

/// The outcome of a step, as `transition` gives it: the new state and the
/// command, or the old state and no command.
pub open spec fn step_outcome(state: WorkerView, event: EventView, draw: u32) -> (
    WorkerView,
    Option<CommandView>,
) {
    match transition(state, event, draw) {
        Some((next, command)) => (next, Some(command)),
        None => (state, None),
    }
}

/// `command` is one that a request may ask for: a store write, a send, or a
/// report.
pub open spec fn is_request_command(command: CommandView) -> bool {
    ||| command is Store
    ||| command is Send
    ||| command is ReportUnknownDestination
    ||| command is ReportDecodeFailure
}

impl WorkerView {
    /// The state is one that the worker can be in: what is pending for a
    /// delivery is made of commands that a request may ask for. The
    /// acknowledgement is never among them; it comes when they are done.
    pub open spec fn well_formed(self) -> bool {
        match self {
            WorkerView::Dispatching { delivery_tag, pending } => forall|i: int|
                0 <= i < pending.len() ==> is_request_command(#[trigger] pending[i]),
            _ => true,
        }
    }

    /// The delivery that the worker is handling, if any.
    pub open spec fn delivery(self) -> Option<u64> {
        match self {
            WorkerView::Idle => None,
            WorkerView::Archiving { delivery_tag, body } => Some(delivery_tag),
            WorkerView::Decoding { delivery_tag, body } => Some(delivery_tag),
            WorkerView::Dispatching { delivery_tag, pending } => Some(delivery_tag),
            WorkerView::Acknowledging { delivery_tag } => Some(delivery_tag),
        }
    }
}

/// The worker starts well formed and every step keeps it so. A step hands
/// out an acknowledgement exactly when it moves the worker to
/// `Acknowledging`; the acknowledgement is for the delivery at hand, and the
/// only step from there is back to `Idle`. So no delivery is acknowledged
/// twice, and none is dropped on the way.
pub proof fn lemma_step_keeps_well_formed(state: WorkerView, event: EventView, draw: u32)
    requires
        state.well_formed(),
    ensures
        WorkerView::Idle.well_formed(),
        step_outcome(state, event, draw).0.well_formed(),
        step_outcome(state, event, draw).1 matches Some(command) ==> (command is Acknowledge
            <==> step_outcome(state, event, draw).0 is Acknowledging),
        step_outcome(state, event, draw).1 matches Some(
            CommandView::Acknowledge { delivery_tag },
        ) ==> state.delivery() == Some(delivery_tag) && !(state is Acknowledging),
        state is Acknowledging ==> step_outcome(state, event, draw).0 is Idle
            || step_outcome(state, event, draw).0 == state,
        state.delivery() is Some && step_outcome(state, event, draw).0.delivery() is Some
            ==> step_outcome(state, event, draw).0.delivery() == state.delivery(),
{
    match (state, event) {
        (WorkerView::Decoding { delivery_tag, body }, EventView::Decoded { request }) => {
            let plan = handling_plan(body, request, draw);
            lemma_handling_commands(body, request, draw);
            if plan.len() > 0 {
                let rest = plan.drop_first();
                assert forall|i: int| 0 <= i < rest.len() implies is_request_command(
                    #[trigger] rest[i],
                ) by {
                    assert(rest[i] == plan[i + 1]);
                }
                assert(is_request_command(plan[0]));
            }
        },
        (WorkerView::Dispatching { delivery_tag, pending }, EventView::Completed) => {
            if pending.len() > 0 {
                let rest = pending.drop_first();
                assert forall|i: int| 0 <= i < rest.len() implies is_request_command(
                    #[trigger] rest[i],
                ) by {
                    assert(rest[i] == pending[i + 1]);
                }
                assert(is_request_command(pending[0]));
            }
        },
        _ => {},
    }
}

/// Deliveries are handled one at a time: while one is being handled, the
/// worker takes no other. Only an idle worker accepts a delivery.
pub proof fn lemma_one_delivery_at_a_time(
    state: WorkerView,
    delivery_tag: u64,
    body: Seq<u8>,
    draw: u32,
)
    ensures
        transition(state, EventView::Delivered { delivery_tag, body }, draw) is Some
            <==> state is Idle,
{
}

/// What a decoded payload asks for never holds an acknowledgement, a
/// decoding or a wait: only store writes, sends and reports.
pub proof fn lemma_handling_commands(
    body: Seq<u8>,
    request: Option<NotificationRequestView>,
    draw: u32,
)
    ensures
        forall|i: int|
            0 <= i < handling_plan(body, request, draw).len() ==> is_request_command(
                #[trigger] handling_plan(body, request, draw)[i],
            ),
{
    let plan = handling_plan(body, request, draw);
    match request {
        Some(request) => {
            match request.kind {
                NotificationKind::Otp => {
                    let code = otp_code_text(draw);
                    lemma_route_commands(
                        request.destinations,
                        request.email,
                        request.phone_number,
                        code,
                    );
                    let route = request_route(request, code);
                    assert forall|i: int| 0 <= i < plan.len() implies is_request_command(
                        #[trigger] plan[i],
                    ) by {
                        if i > 0 {
                            assert(plan[i] == route[i - 1]);
                        }
                    }
                },
                _ => {
                    match request.message {
                        Some(text) => {
                            lemma_route_commands(
                                request.destinations,
                                request.email,
                                request.phone_number,
                                text,
                            );
                        },
                        None => {},
                    }
                },
            }
        },
        None => {},
    }
}

/// Archiving comes before decoding: the step that takes a delivery in hands
/// out the archive write of its raw bytes, whatever they are, and the
/// decoding is asked for only when that write is done. Until then the worker
/// takes no outcome of a decoding.
pub proof fn lemma_archived_before_decoding(
    delivery_tag: u64,
    body: Seq<u8>,
    request: Option<NotificationRequestView>,
    draw: u32,
)
    ensures
        transition(
            WorkerView::Idle,
            EventView::Delivered { delivery_tag, body },
            draw,
        ) == Some(
            (
                WorkerView::Archiving { delivery_tag, body },
                CommandView::Store(archive_write_of(delivery_tag, body)),
            ),
        ),
        transition(
            WorkerView::Archiving { delivery_tag, body },
            EventView::Completed,
            draw,
        ) == Some(
            (WorkerView::Decoding { delivery_tag, body }, CommandView::Decode { body }),
        ),
        transition(WorkerView::Idle, EventView::Decoded { request }, draw) is None,
        transition(
            WorkerView::Archiving { delivery_tag, body },
            EventView::Decoded { request },
            draw,
        ) is None,
{
}

/// A copy of a byte buffer.
fn copy_bytes(bytes: &Vec<u8>) -> (copy: Vec<u8>)
    ensures
        copy@ == bytes@,
{
    let mut copy: Vec<u8> = Vec::with_capacity(bytes.len());
    let mut i: usize = 0;
    while i < bytes.len()
        invariant
            i <= bytes.len(),
            copy@ == bytes@.take(i as int),
        decreases bytes.len() - i,
    {
        copy.push(bytes[i]);
        assert(copy@ =~= bytes@.take(i + 1));
        i += 1;
    }
    assert(bytes@.take(i as int) =~= bytes@);
    copy
}

/// Takes the next command of a delivery off `pending`.
fn advance_plan(delivery_tag: u64, pending: Vec<Command>) -> (next: (Worker, Command))
    ensures
        (next.0@, next.1@) == advance(delivery_tag, pending.deep_view()),
{
    let mut pending = pending;
    let ghost before = pending.deep_view();
    if pending.len() == 0 {
        (Worker::Acknowledging { delivery_tag }, Command::Acknowledge { delivery_tag })
    } else {
        let command = pending.remove(0);
        assert(pending.deep_view() =~= before.drop_first());
        (Worker::Dispatching { delivery_tag, pending }, command)
    }
}

/// What is done with a payload once the decoding is over, for a plan of the
/// request that is already made.
fn plan_handling(body: Vec<u8>, plan: Option<Vec<Command>>) -> (commands: Vec<Command>)
    ensures
        commands.deep_view() == match plan {
            Some(plan) => plan.deep_view(),
            None => seq![CommandView::ReportDecodeFailure { body: body@ }],
        },
{
    match plan {
        Some(plan) => plan,
        None => {
            let mut commands: Vec<Command> = Vec::new();
            commands.push(Command::ReportDecodeFailure { body });
            assert(commands.deep_view() =~= seq![
                CommandView::ReportDecodeFailure { body: body@ },
            ]);
            commands
        },
    }
}

impl Worker {
    /// A worker that handles no delivery yet. The driver starts by waiting
    /// for one.
    pub fn new() -> (worker: Worker)
        ensures
            worker@ == WorkerView::Idle,
    {
        Worker::Idle
    }

    /// Takes one step for a given random number: the new state and the next
    /// command for the driver. An event that does not belong to the state
    /// changes nothing and gives no command.
    pub fn step_with_draw(self, event: Event, draw: u32) -> (next: (Worker, Option<Command>))
        ensures
            (next.0@, next.1.deep_view()) == step_outcome(self@, event@, draw),
    {
        match (self, event) {
            (Worker::Idle, Event::Delivered { delivery_tag, body }) => {
                let kept = copy_bytes(&body);
                (
                    Worker::Archiving { delivery_tag, body: kept },
                    Some(Command::Store(archive_write(delivery_tag, body))),
                )
            },
            (Worker::Archiving { delivery_tag, body }, Event::Completed) => {
                let kept = copy_bytes(&body);
                (Worker::Decoding { delivery_tag, body: kept }, Some(Command::Decode { body }))
            },
            (Worker::Decoding { delivery_tag, body }, Event::Decoded { request }) => {
                let plan = match &request {
                    Some(request) => Some(plan_dispatch(request, draw)),
                    None => None,
                };
                let (worker, command) = advance_plan(delivery_tag, plan_handling(body, plan));
                (worker, Some(command))
            },
            (Worker::Dispatching { delivery_tag, pending }, Event::Completed) => {
                let (worker, command) = advance_plan(delivery_tag, pending);
                (worker, Some(command))
            },
            (Worker::Acknowledging { delivery_tag }, Event::Completed) => {
                (Worker::Idle, Some(Command::AwaitDelivery))
            },
            (worker, _) => (worker, None),
        }
    }

    /// Takes one step: the new state and the next command for the driver.
    /// An event that does not belong to the state changes nothing and gives
    /// no command.
    ///
    /// The step is the one that `transition` describes. Where it issues a
    /// one-time code, the code comes from a random number drawn here.
    pub fn step(self, event: Event) -> (next: (Worker, Option<Command>))
        ensures
            exists|draw: u32|
                (next.0@, next.1.deep_view()) == step_outcome(self@, event@, draw),
    {
        let ghost state = self@;
        let ghost given = event@;
        match (self, event) {
            (Worker::Decoding { delivery_tag, body }, Event::Decoded { request: Some(request) }) => {
                let plan = dispatch(&request);
                let ghost draw = choose|draw: u32|
                    plan.deep_view() == dispatch_plan(request@, draw);
                let (worker, command) = advance_plan(delivery_tag, plan_handling(body, Some(plan)));
                let next = (worker, Some(command));
                assert((next.0@, next.1.deep_view()) == step_outcome(state, given, draw));
                next
            },
            (worker, event) => {
                let next = worker.step_with_draw(event, 0);
                assert((next.0@, next.1.deep_view()) == step_outcome(state, given, 0u32));
                next
            },
        }
    }
}

} // verus!
