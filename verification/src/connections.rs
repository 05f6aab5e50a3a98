//! Who is let in.

use crate::messages::Event;
use crate::state::Entity;
use vstd::prelude::*;

verus! {

/// What happens while someone is let in.
#[derive(Clone, Copy, Debug, PartialEq, Eq, Structural)]
pub enum ClientEvent {
    /// Someone wants to connect.
    Arrived,
    /// An entity was created for the client, with this identifier.
    Created(Entity, Option<u64>),
}

/// What to do next while someone is let in.
#[derive(Clone, Copy, Debug, PartialEq, Eq, Structural)]
pub enum ClientAction {
    /// Create an entity for the client.
    CreateEntity,
    /// Send the client this message, and nothing more after it.
    Greet(Greeting),
}

/// The message that someone who wants to connect was sent.
#[derive(Clone, Copy, Debug, PartialEq, Eq, Structural)]
pub enum Greeting {
    TooManyPlayers,
    /// The state of the game, for the client of this entity.
    GameSync(Entity),
}

/// What became of someone who wanted to connect: the entity of the client, if it
/// was let in, unless it could not be told.
pub open spec fn connection_result<E>(greeting: Greeting, sent: Result<(), E>) -> Result<
    Option<Entity>,
    E,
> {
    match sent {
        Ok(_) => match greeting {
            Greeting::TooManyPlayers => Ok(None),
            Greeting::GameSync(entity) => Ok(Some(entity)),
        },
        Err(e) => Err(e),
    }
}

/// The events for whoever runs the server, of what became of those who wanted to
/// connect: one for each client that was let in and told so.
pub open spec fn connection_events<E, G>(results: Seq<Result<Option<Entity>, E>>) -> Seq<Event<G>>
    decreases results.len(),
{
    if results.len() == 0 {
        Seq::empty()
    } else {
        let rest = connection_events(results.drop_last());
        match results.last() {
            Ok(Some(entity)) => rest.push(Event::ClientConnected { entity }),
            _ => rest,
        }
    }
}

impl Greeting {
    /// What became of someone who wanted to connect, once the message was sent.
    pub fn conclude<E>(self, sent: Result<(), E>) -> (r: Result<Option<Entity>, E>)
        ensures
            r == connection_result(self, sent),
    {
        match sent {
            Ok(_) => match self {
                Greeting::TooManyPlayers => Ok(None),
                Greeting::GameSync(entity) => Ok(Some(entity)),
            },
            Err(e) => Err(e),
        }
    }
}

/// Adds the events of what became of those who wanted to connect.
pub fn record_connections<E, G>(
    results: Vec<Result<Option<Entity>, E>>,
    frontend_events: &mut Vec<Event<G>>,
)
    ensures
        final(frontend_events)@ == old(frontend_events)@ + connection_events::<E, G>(results@),
{
    let ghost before = frontend_events@;
    assert(before + connection_events::<E, G>(results@.take(0)) =~= before);
    for result in it: results.into_iter()
        invariant
            it.seq() == results@,
            frontend_events@ == before + connection_events::<E, G>(results@.take(it.index())),
    {
        proof {
            assert(results@.take(it.index() + 1).drop_last() =~= results@.take(it.index()));
        }
        if let Ok(Some(entity)) = result {
            frontend_events.push(Event::ClientConnected { entity });
        }
        assert(frontend_events@ =~= before + connection_events::<E, G>(
            results@.take(it.index() + 1),
        ));
    }
    assert(results@.take(results@.len() as int) =~= results@);
}

/// What is done next while someone is let in: who arrives at a full server is told
/// so, who arrives at any other gets an entity, and then the state of the game.
pub open spec fn client_action(clients: int, max_players: int, event: ClientEvent) -> ClientAction {
    match event {
        ClientEvent::Arrived => if has_room(clients, max_players) {
            ClientAction::CreateEntity
        } else {
            ClientAction::Greet(Greeting::TooManyPlayers)
        },
        ClientEvent::Created(entity, _) => ClientAction::Greet(Greeting::GameSync(entity)),
    }
}

/// There is room for one more.
pub open spec fn has_room(clients: int, max_players: int) -> bool {
    clients < max_players
}

/// How many of a queue of `waiting` are let in, one after the other, by a server
/// that has `clients` of its `max_players`.
pub open spec fn let_in(clients: int, max_players: int, waiting: nat) -> nat
    decreases waiting,
{
    if waiting == 0 {
        0
    } else if client_action(clients, max_players, ClientEvent::Arrived) is CreateEntity {
        1 + let_in(clients + 1, max_players, (waiting - 1) as nat)
    } else {
        let_in(clients, max_players, (waiting - 1) as nat)
    }
}

/// A queue fills the server to its limit and no further: everyone is let in while
/// there is room, and nobody once it is full.
pub proof fn queue_fills_the_server(clients: int, max_players: int, waiting: nat)
    ensures
        clients >= max_players ==> let_in(clients, max_players, waiting) == 0,
        clients < max_players ==> let_in(clients, max_players, waiting) == if waiting
            <= max_players - clients {
            waiting as int
        } else {
            max_players - clients
        },
        clients <= max_players ==> clients + let_in(clients, max_players, waiting) <= max_players,
    decreases waiting,
{
    if waiting > 0 {
        if has_room(clients, max_players) {
            queue_fills_the_server(clients + 1, max_players, (waiting - 1) as nat);
        } else {
            queue_fills_the_server(clients, max_players, (waiting - 1) as nat);
        }
    }
}

/// One of those who wait to be let in: the entity that is theirs if one is created,
/// with its identifier, and what comes of the message that they are sent.
pub struct Visit<E> {
    pub entity: Entity,
    pub uid: Option<u64>,
    pub sent: Result<(), E>,
}

/// What becomes of someone who arrives at a server that has `clients` of its
/// `max_players`.
pub open spec fn visit_result<E>(clients: int, max_players: int, visit: Visit<E>) -> Result<
    Option<Entity>,
    E,
> {
    match client_action(clients, max_players, ClientEvent::Arrived) {
        ClientAction::Greet(greeting) => connection_result(greeting, visit.sent),
        ClientAction::CreateEntity => {
            let created = ClientEvent::Created(visit.entity, visit.uid);
            match client_action(clients, max_players, created) {
                ClientAction::Greet(greeting) => connection_result(greeting, visit.sent),
                ClientAction::CreateEntity => Ok(None),
            }
        },
    }
}

/// What becomes of those who arrive one after the other.
pub open spec fn visit_results<E>(clients: int, max_players: int, visits: Seq<Visit<E>>) -> Seq<
    Result<Option<Entity>, E>,
>
    decreases visits.len(),
{
    if visits.len() == 0 {
        Seq::empty()
    } else {
        let before = visits.drop_last();
        visit_results(clients, max_players, before).push(
            visit_result(
                clients + let_in(clients, max_players, before.len()),
                max_players,
                visits.last(),
            ),
        )
    }
}

/// Of a queue, just those are announced for whom there is room, in the order in
/// which they came, if all can be told; and never more than there is room for.
pub proof fn queue_is_announced<E, G>(clients: int, max_players: int, visits: Seq<Visit<E>>)
    ensures
        connection_events::<E, G>(visit_results(clients, max_players, visits)).len() <= let_in(
            clients,
            max_players,
            visits.len(),
        ),
        (forall|i: int| 0 <= i < visits.len() ==> (#[trigger] visits[i]).sent is Ok) ==> {
            &&& connection_events::<E, G>(visit_results(clients, max_players, visits)).len()
                == let_in(clients, max_players, visits.len())
            &&& let_in(clients, max_players, visits.len()) <= visits.len()
            &&& forall|i: int|
                0 <= i < let_in(clients, max_players, visits.len())
                    ==> #[trigger] connection_events::<E, G>(
                    visit_results(clients, max_players, visits),
                )[i] == (Event::<G>::ClientConnected { entity: visits[i].entity })
        },
    decreases visits.len(),
{
    queue_fills_the_server(clients, max_players, visits.len());
    if visits.len() > 0 {
        let before = visits.drop_last();
        let results = visit_results(clients, max_players, visits);
        let events = connection_events::<E, G>(results);
        let earlier = connection_events::<E, G>(visit_results(clients, max_players, before));
        queue_is_announced::<E, G>(clients, max_players, before);
        queue_fills_the_server(clients, max_players, before.len());
        assert(results.drop_last() =~= visit_results(clients, max_players, before));
        if forall|i: int| 0 <= i < visits.len() ==> (#[trigger] visits[i]).sent is Ok {
            assert forall|i: int| 0 <= i < before.len() implies (
            #[trigger] before[i]).sent is Ok by {
                assert(visits[i].sent is Ok);
            }
            assert(visits[visits.len() - 1].sent is Ok);
            assert forall|i: int|
                0 <= i < let_in(clients, max_players, visits.len()) implies #[trigger] events[i]
                == (Event::<G>::ClientConnected { entity: visits[i].entity }) by {
                if i < earlier.len() {
                    assert(events[i] == earlier[i]);
                    assert(before[i] == visits[i]);
                }
            }
        }
    }
}

/// Whoever arrives gets an entity while fewer are connected than may be, and is
/// turned away otherwise; whoever got an entity is sent the game for that entity.
pub proof fn arrivals_are_let_in_below_the_limit(
    clients: int,
    max_players: int,
    entity: Entity,
    uid: Option<u64>,
)
    ensures
        has_room(clients, max_players) <==> clients < max_players,
        clients < max_players ==> client_action(clients, max_players, ClientEvent::Arrived)
            == ClientAction::CreateEntity,
        clients >= max_players ==> client_action(clients, max_players, ClientEvent::Arrived)
            == ClientAction::Greet(Greeting::TooManyPlayers),
        client_action(clients, max_players, ClientEvent::Created(entity, uid))
            == ClientAction::Greet(Greeting::GameSync(entity)),
{
}

/// Someone is let in just when the game could be sent, under the entity that it was
/// sent for; who was turned away is nobody's entity; and an error stays that error.
pub proof fn connections_end_as_they_were_told<E>(entity: Entity, e: E)
    ensures
        connection_result::<E>(Greeting::GameSync(entity), Ok(())) == Ok::<Option<Entity>, E>(
            Some(entity),
        ),
        connection_result::<E>(Greeting::TooManyPlayers, Ok(())) == Ok::<Option<Entity>, E>(None),
        connection_result::<E>(Greeting::GameSync(entity), Err(e)) == Err::<Option<Entity>, E>(e),
        connection_result::<E>(Greeting::TooManyPlayers, Err(e)) == Err::<Option<Entity>, E>(e),
{
}

/// One more result adds one event if someone was let in, with their entity, and none
/// otherwise.
pub proof fn connections_are_announced_one_by_one<E, G>(
    results: Seq<Result<Option<Entity>, E>>,
    entity: Entity,
    e: E,
)
    ensures
        connection_events::<E, G>(Seq::empty()).len() == 0,
        connection_events::<E, G>(results.push(Ok(Some(entity)))) == connection_events::<E, G>(
            results,
        ).push(Event::ClientConnected { entity }),
        connection_events::<E, G>(results.push(Ok(None))) == connection_events::<E, G>(results),
        connection_events::<E, G>(results.push(Err(e))) == connection_events::<E, G>(results),
{
    assert(results.push(Ok(Some(entity))).drop_last() =~= results);
    assert(results.push(Ok(None)).drop_last() =~= results);
    assert(results.push(Err(e)).drop_last() =~= results);
}

} // verus!
