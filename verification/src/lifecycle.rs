//! Whole deliveries: what the worker does with a message from its arrival to
//! its acknowledgement, and with a stream of messages one after the other.
//!
//! Everything here is about the worker's transition, `transition`, run over
//! the events that a driver reports when it carries out each command it is
//! handed. Nothing here runs: these are the laws that hold of every run.

use vstd::prelude::*;
use crate::command::CommandView;
use crate::consumer::{
    handling_plan,
    is_request_command,
    lemma_handling_commands,
    step_outcome,
    EventView,
    WorkerView,
};
use crate::decimal::ascii_bytes;
use crate::message::{NotificationKind, NotificationRequestView};
use crate::otp::{
    is_otp_code,
    lemma_keys_differ,
    lemma_otp_is_stored,
    otp_code_text,
    otp_key_text,
    otp_record_of,
    otp_write_of,
};
use crate::router::{lemma_route_commands, request_route};
use crate::store::{archive_key_text, archive_write_of, store_after, StoreModel};

verus! {

/// One message of the queue and what becomes of it: its tag, its raw bytes,
/// the request that the bytes decode to, if any, and the random number at
/// hand when the request is carried out.
pub struct Delivery {
    pub delivery_tag: u64,
    pub body: Seq<u8>,
    pub request: Option<NotificationRequestView>,
    pub draw: u32,
}

/// An event as the worker meets it: the event, and the random number at
/// hand at that moment.
pub struct Occurrence {
    pub event: EventView,
    pub draw: u32,
}

impl Delivery {
    /// What the decoded payload asks for.
    pub open spec fn plan(self) -> Seq<CommandView> {
        handling_plan(self.body, self.request, self.draw)
    }

    /// The commands of the delivery, from the first to the acknowledgement:
    /// the archive write, the decoding, what the decoded payload asks for,
    /// and the acknowledgement.
    pub open spec fn commands(self) -> Seq<CommandView> {
        seq![
            CommandView::Store(archive_write_of(self.delivery_tag, self.body)),
            CommandView::Decode { body: self.body },
        ] + self.plan() + seq![CommandView::Acknowledge { delivery_tag: self.delivery_tag }]
    }

    /// The events of the delivery, as a driver reports them that carries out
    /// each command: the arrival, the end of the archive write, the outcome
    /// of the decoding, and the end of each command that follows, the
    /// acknowledgement included.
    pub open spec fn occurrences(self) -> Seq<Occurrence> {
        seq![
            Occurrence {
                event: EventView::Delivered { delivery_tag: self.delivery_tag, body: self.body },
                draw: self.draw,
            },
            Occurrence { event: EventView::Completed, draw: self.draw },
            Occurrence { event: EventView::Decoded { request: self.request }, draw: self.draw },
        ] + completions(self.plan().len() + 1, self.draw)
    }
}

/// `count` reports that a command was carried out.
pub open spec fn completions(count: nat, draw: u32) -> Seq<Occurrence> {
    Seq::new(count, |i: int| Occurrence { event: EventView::Completed, draw })
}

/// The worker's run from `state` over what occurs: the state it ends in and
/// the commands it hands out on the way.
pub open spec fn run(state: WorkerView, occurrences: Seq<Occurrence>) -> (
    WorkerView,
    Seq<CommandView>,
)
    decreases occurrences.len(),
{
    if occurrences.len() == 0 {
        (state, Seq::empty())
    } else {
        let (reached, issued) = run(state, occurrences.drop_last());
        let last = occurrences.last();
        let (next, command) = step_outcome(reached, last.event, last.draw);
        match command {
            Some(command) => (next, issued.push(command)),
            None => (next, issued),
        }
    }
}

/// The events of a stream of deliveries: those of each delivery in turn.
pub open spec fn stream_occurrences(deliveries: Seq<Delivery>) -> Seq<Occurrence>
    decreases deliveries.len(),
{
    if deliveries.len() == 0 {
        Seq::empty()
    } else {
        stream_occurrences(deliveries.drop_last()) + deliveries.last().occurrences()
    }
}

/// The commands of a stream of deliveries: for each delivery in turn its
/// own commands, and then the wait for the next delivery.
pub open spec fn stream_commands(deliveries: Seq<Delivery>) -> Seq<CommandView>
    decreases deliveries.len(),
{
    if deliveries.len() == 0 {
        Seq::empty()
    } else {
        stream_commands(deliveries.drop_last()) + deliveries.last().commands().push(
            CommandView::AwaitDelivery,
        )
    }
}

/// The store after the writes among `commands` were carried out in order.
pub open spec fn stored_after(store: StoreModel, commands: Seq<CommandView>) -> StoreModel
    decreases commands.len(),
{
    if commands.len() == 0 {
        store
    } else {
        let before = stored_after(store, commands.drop_last());
        match commands.last() {
            CommandView::Store(write) => store_after(before, write),
            _ => before,
        }
    }
}

/// A run over two stretches of events is the run over the first, continued
/// by the run over the second.
pub proof fn lemma_run_concat(state: WorkerView, first: Seq<Occurrence>, second: Seq<Occurrence>)
    ensures
        run(state, first + second) == ({
            let (reached, issued) = run(state, first);
            let (end, more) = run(reached, second);
            (end, issued + more)
        }),
    decreases second.len(),
{
    let (reached, issued) = run(state, first);
    if second.len() == 0 {
        assert(first + second =~= first);
        assert(issued + Seq::<CommandView>::empty() =~= issued);
    } else {
        let all = first + second;
        assert(all.drop_last() =~= first + second.drop_last());
        assert(all.last() == second.last());
        lemma_run_concat(state, first, second.drop_last());
        let (mid, more) = run(reached, second.drop_last());
        let (next, command) = step_outcome(mid, second.last().event, second.last().draw);
        match command {
            Some(command) => {
                assert((issued + more).push(command) =~= issued + more.push(command));
            },
            None => {},
        }
    }
}

/// A run over a single event is one step.
pub proof fn lemma_run_one(state: WorkerView, occurrence: Occurrence)
    ensures
        run(state, seq![occurrence]) == ({
            let (next, command) = step_outcome(state, occurrence.event, occurrence.draw);
            match command {
                Some(command) => (next, seq![command]),
                None => (next, Seq::empty()),
            }
        }),
{
    let occurrences = seq![occurrence];
    assert(occurrences.drop_last() =~= Seq::<Occurrence>::empty());
    assert(occurrences.last() == occurrence);
    assert(run(state, occurrences.drop_last()) == (state, Seq::<CommandView>::empty()));
    let (next, command) = step_outcome(state, occurrence.event, occurrence.draw);
    match command {
        Some(command) => {
            assert(Seq::<CommandView>::empty().push(command) =~= seq![command]);
        },
        None => {},
    }
}

/// A driver that reports the end of each command takes the worker through
/// the pending commands in order, then to the acknowledgement, and back to
/// `Idle`.
pub proof fn lemma_run_pending(delivery_tag: u64, pending: Seq<CommandView>, draw: u32)
    ensures
        run(
            WorkerView::Dispatching { delivery_tag, pending },
            completions(pending.len() + 2, draw),
        ) == (
            WorkerView::Idle,
            pending + seq![
                CommandView::Acknowledge { delivery_tag },
                CommandView::AwaitDelivery,
            ],
        ),
    decreases pending.len(),
{
    let state = WorkerView::Dispatching { delivery_tag, pending };
    let completed = Occurrence { event: EventView::Completed, draw };
    let one = seq![completed];
    let rest = completions(pending.len() + 1, draw);
    assert(completions(pending.len() + 2, draw) =~= one + rest);
    lemma_run_concat(state, one, rest);
    lemma_run_one(state, completed);
    if pending.len() == 0 {
        let acknowledging = WorkerView::Acknowledging { delivery_tag };
        assert(rest =~= one);
        lemma_run_one(acknowledging, completed);
        assert(seq![CommandView::Acknowledge { delivery_tag }] + seq![CommandView::AwaitDelivery]
            =~= pending + seq![
            CommandView::Acknowledge { delivery_tag },
            CommandView::AwaitDelivery,
        ]);
    } else {
        let left = pending.drop_first();
        lemma_run_pending(delivery_tag, left, draw);
        assert(rest =~= completions(left.len() + 2, draw));
        assert(seq![pending.first()] + (left + seq![
            CommandView::Acknowledge { delivery_tag },
            CommandView::AwaitDelivery,
        ]) =~= pending + seq![
            CommandView::Acknowledge { delivery_tag },
            CommandView::AwaitDelivery,
        ]);
    }
}

/// The life of a delivery. From `Idle`, a driver that carries out each
/// command and reports its end is handed exactly the commands of the
/// delivery, in order, and is then told to wait for the next delivery, with
/// the worker `Idle` again. This holds for every payload, decodable or not,
/// and for every request.
pub proof fn lemma_delivery_run(delivery: Delivery)
    ensures
        run(WorkerView::Idle, delivery.occurrences()) == (
            WorkerView::Idle,
            delivery.commands().push(CommandView::AwaitDelivery),
        ),
{
    let delivery_tag = delivery.delivery_tag;
    let body = delivery.body;
    let draw = delivery.draw;
    let plan = delivery.plan();
    let delivered = Occurrence { event: EventView::Delivered { delivery_tag, body }, draw };
    let decoded = Occurrence { event: EventView::Decoded { request: delivery.request }, draw };
    let completed = Occurrence { event: EventView::Completed, draw };
    let archiving = WorkerView::Archiving { delivery_tag, body };
    let decoding = WorkerView::Decoding { delivery_tag, body };
    let tail = completions(plan.len() + 1, draw);
    let archive = CommandView::Store(archive_write_of(delivery_tag, body));
    let decode = CommandView::Decode { body };
    let acknowledge = CommandView::Acknowledge { delivery_tag };
    let goal = delivery.commands().push(CommandView::AwaitDelivery);

    assert(delivery.occurrences() =~= seq![delivered] + (seq![completed] + (seq![decoded]
        + tail)));
    lemma_run_concat(WorkerView::Idle, seq![delivered], seq![completed] + (seq![decoded] + tail));
    lemma_run_one(WorkerView::Idle, delivered);
    lemma_run_concat(archiving, seq![completed], seq![decoded] + tail);
    lemma_run_one(archiving, completed);
    lemma_run_concat(decoding, seq![decoded], tail);
    lemma_run_one(decoding, decoded);
    if plan.len() == 0 {
        let acknowledging = WorkerView::Acknowledging { delivery_tag };
        assert(tail =~= seq![completed]);
        lemma_run_one(acknowledging, completed);
        assert(seq![archive] + (seq![decode] + (seq![acknowledge] + seq![
            CommandView::AwaitDelivery,
        ])) =~= goal);
    } else {
        let left = plan.drop_first();
        lemma_run_pending(delivery_tag, left, draw);
        assert(tail =~= completions(left.len() + 2, draw));
        assert(seq![archive] + (seq![decode] + (seq![plan.first()] + (left + seq![
            acknowledge,
            CommandView::AwaitDelivery,
        ]))) =~= goal);
    }
}

/// Deliveries are handled strictly one after the other, in the order of
/// their arrival: over a stream of deliveries the worker hands out the
/// commands of the first, through to its acknowledgement, before any command
/// of the second, and so on, and ends `Idle`.
pub proof fn lemma_stream_run(deliveries: Seq<Delivery>)
    ensures
        run(WorkerView::Idle, stream_occurrences(deliveries)) == (
            WorkerView::Idle,
            stream_commands(deliveries),
        ),
    decreases deliveries.len(),
{
    if deliveries.len() > 0 {
        let before = deliveries.drop_last();
        let last = deliveries.last();
        lemma_stream_run(before);
        lemma_delivery_run(last);
        lemma_run_concat(WorkerView::Idle, stream_occurrences(before), last.occurrences());
    }
}

/// Every delivery is acknowledged exactly once, whatever its payload and
/// whatever the request asks for: the last of its commands acknowledges its
/// tag, and no command before does.
pub proof fn lemma_acknowledged_once(delivery: Delivery)
    ensures
        delivery.commands().last() == (CommandView::Acknowledge {
            delivery_tag: delivery.delivery_tag,
        }),
        forall|i: int|
            0 <= i < delivery.commands().len() - 1 ==> !(
            #[trigger] delivery.commands()[i] is Acknowledge),
{
    let plan = delivery.plan();
    let commands = delivery.commands();
    lemma_handling_commands(delivery.body, delivery.request, delivery.draw);
    assert forall|i: int| 0 <= i < commands.len() - 1 implies !(
    #[trigger] commands[i] is Acknowledge) by {
        if i >= 2 {
            assert(commands[i] == plan[i - 2]);
            assert(is_request_command(plan[i - 2]));
        }
    }
}

/// Archiving is unconditional and comes first: the first command of a
/// delivery stores the raw bytes under the delivery's archive key, without
/// expiry, and the decoding comes right after it. A payload that holds no
/// request is archived all the same, reported, and acknowledged, and nothing
/// else is done with it.
pub proof fn lemma_archived_first(delivery: Delivery)
    ensures
        delivery.commands()[0] == CommandView::Store(
            archive_write_of(delivery.delivery_tag, delivery.body),
        ),
        delivery.commands()[1] == (CommandView::Decode { body: delivery.body }),
        stored_after(Map::empty(), delivery.commands().take(1))[archive_key_text(
            delivery.delivery_tag,
        )].value == delivery.body,
        delivery.request is None ==> delivery.commands() == seq![
            CommandView::Store(archive_write_of(delivery.delivery_tag, delivery.body)),
            CommandView::Decode { body: delivery.body },
            CommandView::ReportDecodeFailure { body: delivery.body },
            CommandView::Acknowledge { delivery_tag: delivery.delivery_tag },
        ],
{
    let first = delivery.commands().take(1);
    assert(first.drop_last() =~= Seq::<CommandView>::empty());
    assert(first.last() == delivery.commands()[0]);
    assert(stored_after(Map::empty(), first.drop_last()) == Map::<
        Seq<char>,
        crate::store::StoreEntry,
    >::empty());
    if delivery.request is None {
        assert(delivery.commands() =~= seq![
            CommandView::Store(archive_write_of(delivery.delivery_tag, delivery.body)),
            CommandView::Decode { body: delivery.body },
            CommandView::ReportDecodeFailure { body: delivery.body },
            CommandView::Acknowledge { delivery_tag: delivery.delivery_tag },
        ]);
    }
}

/// A request of a kind other than `Otp` that has no message is archived,
/// decoded and acknowledged, and that is all: no sender is invoked and
/// nothing is reported.
pub proof fn lemma_no_message_delivery(delivery: Delivery)
    requires
        delivery.request matches Some(request) && request.kind != NotificationKind::Otp
            && request.message is None,
    ensures
        delivery.commands() == seq![
            CommandView::Store(archive_write_of(delivery.delivery_tag, delivery.body)),
            CommandView::Decode { body: delivery.body },
            CommandView::Acknowledge { delivery_tag: delivery.delivery_tag },
        ],
{
    assert(delivery.commands() =~= seq![
        CommandView::Store(archive_write_of(delivery.delivery_tag, delivery.body)),
        CommandView::Decode { body: delivery.body },
        CommandView::Acknowledge { delivery_tag: delivery.delivery_tag },
    ]);
}

/// Carrying out two stretches of commands is carrying out the first and then
/// the second.
pub proof fn lemma_stored_after_concat(
    store: StoreModel,
    first: Seq<CommandView>,
    second: Seq<CommandView>,
)
    ensures
        stored_after(store, first + second) == stored_after(stored_after(store, first), second),
    decreases second.len(),
{
    if second.len() == 0 {
        assert(first + second =~= first);
    } else {
        let all = first + second;
        assert(all.drop_last() =~= first + second.drop_last());
        assert(all.last() == second.last());
        lemma_stored_after_concat(store, first, second.drop_last());
    }
}

/// Commands that are no store writes leave the store as it is.
pub proof fn lemma_stored_after_no_writes(store: StoreModel, commands: Seq<CommandView>)
    requires
        forall|i: int| 0 <= i < commands.len() ==> !(#[trigger] commands[i] is Store),
    ensures
        stored_after(store, commands) == store,
    decreases commands.len(),
{
    if commands.len() > 0 {
        let front = commands.drop_last();
        assert forall|i: int| 0 <= i < front.len() implies !(#[trigger] front[i] is Store) by {
            assert(front[i] == commands[i]);
        }
        lemma_stored_after_no_writes(store, front);
        assert(commands.last() == commands[commands.len() - 1]);
    }
}

/// Once the delivery of an `Otp` request is handled, the store holds under
/// `otp:<user_id>` a code of exactly six decimal digits, expiring after 300
/// seconds, whatever it held before; and the delivery's payload is archived.
pub proof fn lemma_otp_stored_after_delivery(store: StoreModel, delivery: Delivery)
    requires
        delivery.request matches Some(request) && request.kind == NotificationKind::Otp,
    ensures
        ({
            let after = stored_after(store, delivery.commands());
            let key = otp_key_text(delivery.request->0.user_id);
            &&& after.dom().contains(key)
            &&& after[key].value == ascii_bytes(otp_code_text(delivery.draw))
            &&& is_otp_code(otp_code_text(delivery.draw))
            &&& after[key].expiry_seconds == Some(300u64)
            &&& after.dom().contains(archive_key_text(delivery.delivery_tag))
            &&& after[archive_key_text(delivery.delivery_tag)].value == delivery.body
        }),
{
    let request = delivery.request->0;
    let delivery_tag = delivery.delivery_tag;
    let body = delivery.body;
    let draw = delivery.draw;
    let code = otp_code_text(draw);
    let record = otp_record_of(request.user_id, draw);
    let archive = CommandView::Store(archive_write_of(delivery_tag, body));
    let decode = CommandView::Decode { body };
    let keep = CommandView::Store(otp_write_of(record));
    let route = request_route(request, code);
    let acknowledge = CommandView::Acknowledge { delivery_tag };
    let commands = delivery.commands();
    let head = seq![archive, decode, keep];
    let tail = route + seq![acknowledge];
    assert(commands =~= head + tail);
    lemma_stored_after_concat(store, head, tail);

    lemma_route_commands(request.destinations, request.email, request.phone_number, code);
    assert forall|i: int| 0 <= i < tail.len() implies !(#[trigger] tail[i] is Store) by {
        if i < route.len() {
            assert(tail[i] == route[i]);
        }
    }
    lemma_stored_after_no_writes(stored_after(store, head), tail);

    assert(head.drop_last() =~= seq![archive, decode]);
    assert(seq![archive, decode].drop_last() =~= seq![archive]);
    assert(seq![archive].drop_last() =~= Seq::<CommandView>::empty());
    reveal_with_fuel(stored_after, 4);
    let archived = store_after(store, archive_write_of(delivery_tag, body));
    assert(stored_after(store, head) == store_after(archived, otp_write_of(record)));

    lemma_otp_is_stored(archived, request.user_id, draw);
    lemma_keys_differ(request.user_id, delivery_tag);
}

} // verus!
