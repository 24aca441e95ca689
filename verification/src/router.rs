//! The router: from a decoded request to the commands that deliver it.
//!
//! A request has one content, or none: a fresh one-time code for the kind
//! `Otp`, the request's own message for the other kinds. The content goes
//! to every destination of the request, one after the other, in the order
//! in which the request lists them.

use vstd::prelude::*;
use vstd::string::*;
use crate::command::{channel_of, email_name, whatsapp_name, Channel, Command, CommandView};
use crate::message::{NotificationKind, NotificationRequest, NotificationRequestView};
use crate::otp::{
    handle_otp,
    issue_otp,
    otp_code_text,
    otp_record_of,
    otp_write_of,
    OtpRecord,
    OtpRecordView,
};

verus! {

/// What one destination name contributes to the plan.
///
/// A known channel gives one send to the address that the request holds
/// for it, and nothing if the request holds none. An unknown name gives a
/// report and no send.
pub open spec fn destination_commands(
    name: Seq<char>,
    email: Option<Seq<char>>,
    phone_number: Option<Seq<char>>,
    content: Seq<char>,
) -> Seq<CommandView> {
    match channel_of(name) {
        Channel::Email => match email {
            Some(to) => seq![CommandView::Send { channel: Channel::Email, to, content }],
            None => Seq::empty(),
        },
        Channel::WhatsApp => match phone_number {
            Some(to) => seq![CommandView::Send { channel: Channel::WhatsApp, to, content }],
            None => Seq::empty(),
        },
        Channel::Unknown => seq![CommandView::ReportUnknownDestination { name }],
    }
}

/// The commands that take `content` to each of `destinations`, in order.
pub open spec fn route_plan(
    destinations: Seq<Seq<char>>,
    email: Option<Seq<char>>,
    phone_number: Option<Seq<char>>,
    content: Seq<char>,
) -> Seq<CommandView>
    decreases destinations.len(),
{
    if destinations.len() == 0 {
        Seq::empty()
    } else {
        route_plan(destinations.drop_last(), email, phone_number, content) + destination_commands(
            destinations.last(),
            email,
            phone_number,
            content,
        )
    }
}

/// The commands that deliver `content` for `request`.
pub open spec fn request_route(request: NotificationRequestView, content: Seq<char>) -> Seq<
    CommandView,
> {
    route_plan(request.destinations, request.email, request.phone_number, content)
}

/// The commands that issue `record` for `request`: first the write that
/// stores the code, then the sends of the code.
pub open spec fn code_plan(request: NotificationRequestView, record: OtpRecordView) -> Seq<
    CommandView,
> {
    seq![CommandView::Store(otp_write_of(record))] + request_route(request, record.code)
}

/// The commands that carry out `request` when the random number is `draw`.
///
/// For the kind `Otp` the draw gives the code, and a message in the request
/// is ignored. For the other kinds the message is the content and the draw
/// plays no part; without a message nothing is done at all.
pub open spec fn dispatch_plan(request: NotificationRequestView, draw: u32) -> Seq<CommandView> {
    match request.kind {
        NotificationKind::Otp => code_plan(request, otp_record_of(request.user_id, draw)),
        _ => match request.message {
            Some(text) => request_route(request, text),
            None => Seq::empty(),
        },
    }
}

/// `command` is one that a route may hold: a send of `content` on a known
/// channel to the address that the request holds for that channel, or the
/// report of a destination of the request that names no known channel.
pub open spec fn is_route_command(
    command: CommandView,
    destinations: Seq<Seq<char>>,
    email: Option<Seq<char>>,
    phone_number: Option<Seq<char>>,
    content: Seq<char>,
) -> bool {
    match command {
        CommandView::Send { channel, to, content: sent } => {
            &&& sent == content
            &&& (channel == Channel::Email && email == Some(to)) || (channel == Channel::WhatsApp
                && phone_number == Some(to))
        },
        CommandView::ReportUnknownDestination { name } => {
            &&& destinations.contains(name)
            &&& channel_of(name) == Channel::Unknown
        },
        _ => false,
    }
}

/// The reports of `names` as unknown destinations, one for each name, in
/// order.
pub open spec fn unknown_reports(names: Seq<Seq<char>>) -> Seq<CommandView> {
    Seq::new(names.len(), |i: int| CommandView::ReportUnknownDestination { name: names[i] })
}

/// A route holds nothing but sends and reports of unknown destinations.
/// Each send carries the content, on the email channel to the request's email
/// address or on the WhatsApp channel to its phone number: nothing is ever
/// sent on the channel `Unknown`. Each report names a destination of the
/// request that is neither `email` nor `whatsapp`.
pub proof fn lemma_route_commands(
    destinations: Seq<Seq<char>>,
    email: Option<Seq<char>>,
    phone_number: Option<Seq<char>>,
    content: Seq<char>,
)
    ensures
        forall|i: int|
            0 <= i < route_plan(destinations, email, phone_number, content).len()
                ==> is_route_command(
                #[trigger] route_plan(destinations, email, phone_number, content)[i],
                destinations,
                email,
                phone_number,
                content,
            ),
    decreases destinations.len(),
{
    if destinations.len() > 0 {
        let front = destinations.drop_last();
        lemma_route_commands(front, email, phone_number, content);
        let head = route_plan(front, email, phone_number, content);
        let tail = destination_commands(destinations.last(), email, phone_number, content);
        let plan = route_plan(destinations, email, phone_number, content);
        assert forall|i: int| 0 <= i < plan.len() implies is_route_command(
            #[trigger] plan[i],
            destinations,
            email,
            phone_number,
            content,
        ) by {
            if i < head.len() {
                assert(plan[i] == head[i]);
                assert(is_route_command(head[i], front, email, phone_number, content));
                if let CommandView::ReportUnknownDestination { name } = head[i] {
                    let j = choose|j: int| 0 <= j < front.len() && front[j] == name;
                    assert(destinations[j] == name);
                }
            } else {
                assert(plan[i] == tail[i - head.len()]);
                assert(destinations[destinations.len() - 1] == destinations.last());
            }
        }
    }
}

/// Destinations that name no known channel invoke no sender: a request whose
/// destinations are all unknown is answered by one report for each of them,
/// in order, and nothing else.
pub proof fn lemma_unknown_destinations_are_reported(
    destinations: Seq<Seq<char>>,
    email: Option<Seq<char>>,
    phone_number: Option<Seq<char>>,
    content: Seq<char>,
)
    requires
        forall|i: int|
            0 <= i < destinations.len() ==> #[trigger] destinations[i] != email_name()
                && destinations[i] != whatsapp_name(),
    ensures
        route_plan(destinations, email, phone_number, content) == unknown_reports(destinations),
    decreases destinations.len(),
{
    if destinations.len() > 0 {
        let front = destinations.drop_last();
        assert forall|i: int| 0 <= i < front.len() implies #[trigger] front[i] != email_name()
            && front[i] != whatsapp_name() by {
            assert(front[i] == destinations[i]);
        }
        lemma_unknown_destinations_are_reported(front, email, phone_number, content);
        assert(destinations.last() == destinations[destinations.len() - 1]);
    }
    assert(route_plan(destinations, email, phone_number, content) =~= unknown_reports(
        destinations,
    ));
}

/// A destination whose name is neither `email` nor `whatsapp` invokes no
/// sender, whatever addresses the request holds: all it adds to a route is
/// the report of its name.
pub proof fn lemma_unknown_destination(
    destinations: Seq<Seq<char>>,
    name: Seq<char>,
    email: Option<Seq<char>>,
    phone_number: Option<Seq<char>>,
    content: Seq<char>,
)
    requires
        name != email_name(),
        name != whatsapp_name(),
    ensures
        destination_commands(name, email, phone_number, content) == seq![
            CommandView::ReportUnknownDestination { name },
        ],
        route_plan(destinations.push(name), email, phone_number, content) == route_plan(
            destinations,
            email,
            phone_number,
            content,
        ).push(CommandView::ReportUnknownDestination { name }),
{
    lemma_route_push(destinations, name, email, phone_number, content);
    assert(route_plan(destinations, email, phone_number, content) + seq![
        CommandView::ReportUnknownDestination { name },
    ] =~= route_plan(destinations, email, phone_number, content).push(
        CommandView::ReportUnknownDestination { name },
    ));
}

/// One destination more adds its own commands behind those of the
/// destinations before it: the order of the sends is the order of the
/// destinations.
pub proof fn lemma_route_push(
    destinations: Seq<Seq<char>>,
    name: Seq<char>,
    email: Option<Seq<char>>,
    phone_number: Option<Seq<char>>,
    content: Seq<char>,
)
    ensures
        route_plan(destinations.push(name), email, phone_number, content) == route_plan(
            destinations,
            email,
            phone_number,
            content,
        ) + destination_commands(name, email, phone_number, content),
{
    assert(destinations.push(name).drop_last() =~= destinations);
}

/// A request of a kind other than `Otp` that has no message invokes no
/// sender: its plan is empty, whatever its destinations are.
pub proof fn lemma_no_message_no_dispatch(request: NotificationRequestView, draw: u32)
    requires
        request.kind != NotificationKind::Otp,
        request.message is None,
    ensures
        dispatch_plan(request, draw) == Seq::<CommandView>::empty(),
{
}

/// The message of an `Otp` request is ignored: the plan is the same with any
/// message and with none.
pub proof fn lemma_otp_ignores_message(
    request: NotificationRequestView,
    message: Option<Seq<char>>,
    draw: u32,
)
    requires
        request.kind == NotificationKind::Otp,
    ensures
        dispatch_plan(request, draw) == dispatch_plan(
            NotificationRequestView { message, ..request },
            draw,
        ),
{
}

/// The plan of an `Otp` request starts with the write that stores the code
/// under the user's key for 300 seconds; what follows is a route of that very
/// code.
pub proof fn lemma_otp_plan(request: NotificationRequestView, draw: u32)
    requires
        request.kind == NotificationKind::Otp,
    ensures
        dispatch_plan(request, draw).len() >= 1,
        dispatch_plan(request, draw)[0] == CommandView::Store(
            otp_write_of(otp_record_of(request.user_id, draw)),
        ),
        dispatch_plan(request, draw).drop_first() == request_route(request, otp_code_text(draw)),
{
    assert(dispatch_plan(request, draw).drop_first() =~= request_route(
        request,
        otp_code_text(draw),
    ));
}

/// Routing the destinations up to and including position `i` is routing
/// those before `i` and then the one at `i`.
proof fn lemma_route_step(
    destinations: Seq<Seq<char>>,
    email: Option<Seq<char>>,
    phone_number: Option<Seq<char>>,
    content: Seq<char>,
    i: int,
)
    requires
        0 <= i < destinations.len(),
    ensures
        route_plan(destinations.take(i + 1), email, phone_number, content) == route_plan(
            destinations.take(i),
            email,
            phone_number,
            content,
        ) + destination_commands(destinations[i], email, phone_number, content),
{
    assert(destinations.take(i + 1).drop_last() =~= destinations.take(i));
}

/// Plans the delivery of `content` to every destination of `request`.
pub fn route(request: &NotificationRequest, content: &str) -> (plan: Vec<Command>)
    ensures
        plan.deep_view() == request_route(request@, content@),
{
    let mut plan: Vec<Command> = Vec::new();
    let ghost destinations = request@.destinations;
    let ghost email = request@.email;
    let ghost phone_number = request@.phone_number;
    assert(plan.deep_view() =~= route_plan(destinations.take(0), email, phone_number, content@));
    let mut i: usize = 0;
    while i < request.destinations.len()
        invariant
            i <= request.destinations.len(),
            destinations == request@.destinations,
            email == request@.email,
            phone_number == request@.phone_number,
            destinations.len() == request.destinations.len(),
            plan.deep_view() == route_plan(destinations.take(i as int), email, phone_number, content@),
        decreases request.destinations.len() - i,
    {
        let name = &request.destinations[i];
        let ghost before = plan.deep_view();
        assert(destinations[i as int] == name@);
        match Channel::from_name(name.as_str()) {
            Channel::Email => {
                if let Some(to) = &request.email {
                    plan.push(
                        Command::Send {
                            channel: Channel::Email,
                            to: to.clone(),
                            content: content.to_owned(),
                        },
                    );
                }
            },
            Channel::WhatsApp => {
                if let Some(to) = &request.phone_number {
                    plan.push(
                        Command::Send {
                            channel: Channel::WhatsApp,
                            to: to.clone(),
                            content: content.to_owned(),
                        },
                    );
                }
            },
            Channel::Unknown => {
                plan.push(Command::ReportUnknownDestination { name: name.clone() });
            },
        }
        proof {
            lemma_route_step(destinations, email, phone_number, content@, i as int);
            assert(plan.deep_view() =~= before + destination_commands(
                name@,
                email,
                phone_number,
                content@,
            ));
        }
        i += 1;
    }
    assert(destinations.take(i as int) =~= destinations);
    plan
}

/// Plans the issue of a code: the write that stores `record`, then the
/// delivery of its code to every destination of `request`.
pub fn deliver_code(request: &NotificationRequest, record: &OtpRecord) -> (plan: Vec<Command>)
    ensures
        plan.deep_view() == code_plan(request@, record@),
{
    let mut plan: Vec<Command> = Vec::new();
    plan.push(Command::Store(record.store_write()));
    let mut sends = route(request, record.code.as_str());
    let ghost sends_view = sends.deep_view();
    plan.append(&mut sends);
    assert(plan.deep_view() =~= code_plan(request@, record@));
    plan
}

/// Plans the delivery of the request's own message: nothing when it has
/// none.
pub fn deliver_message(request: &NotificationRequest) -> (plan: Vec<Command>)
    ensures
        plan.deep_view() == match request@.message {
            Some(text) => request_route(request@, text),
            None => Seq::empty(),
        },
{
    match &request.message {
        Some(text) => route(request, text.as_str()),
        None => {
            let plan: Vec<Command> = Vec::new();
            assert(plan.deep_view() =~= Seq::<CommandView>::empty());
            plan
        },
    }
}

/// Plans a request for a given random number.
pub fn plan_dispatch(request: &NotificationRequest, draw: u32) -> (plan: Vec<Command>)
    ensures
        plan.deep_view() == dispatch_plan(request@, draw),
{
    match request.kind {
        NotificationKind::Otp => {
            let record = issue_otp(request.user_id, draw);
            deliver_code(request, &record)
        },
        _ => deliver_message(request),
    }
}

/// Plans a request, drawing the random number for the code where one is
/// needed. The plan is `dispatch_plan` for the number that was drawn.
pub fn dispatch(request: &NotificationRequest) -> (plan: Vec<Command>)
    ensures
        exists|draw: u32| plan.deep_view() == dispatch_plan(request@, draw),
{
    match request.kind {
        NotificationKind::Otp => {
            let record = handle_otp(request.user_id);
            let plan = deliver_code(request, &record);
            proof {
                let draw = choose|draw: u32| record@ == otp_record_of(request.user_id, draw);
                assert(plan.deep_view() == dispatch_plan(request@, draw));
            }
            plan
        },
        _ => {
            let plan = deliver_message(request);
            assert(plan.deep_view() == dispatch_plan(request@, 0u32));
            plan
        },
    }
}

} // verus!
