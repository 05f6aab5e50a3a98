//! What the server says to its clients and to itself.
//!
//! A list of characters and the data of a character are handed through as they
//! are, so their types are left to the caller.

use crate::settings::TimeSpan;
use crate::state::{clients_are_the_connected, Entity, State};
use vstd::prelude::*;

verus! {

/// How a line of chat is shown.
#[derive(Clone, Copy, Debug, PartialEq, Eq, Structural)]
pub enum ChatType {
    CommandInfo,
    CommandError,
}

/// Why a client is disconnected.
#[derive(Clone, Copy, Debug, PartialEq, Eq, Structural)]
pub enum DisconnectReason {
    Shutdown,
}

/// A message to a client.
#[derive(Debug)]
pub enum ServerGeneral<L> {
    CharacterListUpdate(L),
    CharacterActionError(String),
    CharacterCreated(i64),
    CharacterDataLoadError(String),
    ServerMsg(ChatType, String),
    Disconnect(DisconnectReason),
}

/// [`ServerGeneral`], by the text it holds.
pub enum MessageView<L> {
    CharacterListUpdate(L),
    CharacterActionError(Seq<char>),
    CharacterCreated(i64),
    CharacterDataLoadError(Seq<char>),
    ServerMsg(ChatType, Seq<char>),
    Disconnect(DisconnectReason),
}

impl<L> View for ServerGeneral<L> {
    type V = MessageView<L>;

    open spec fn view(&self) -> MessageView<L> {
        match *self {
            ServerGeneral::CharacterListUpdate(list) => MessageView::CharacterListUpdate(list),
            ServerGeneral::CharacterActionError(e) => MessageView::CharacterActionError(e@),
            ServerGeneral::CharacterCreated(id) => MessageView::CharacterCreated(id),
            ServerGeneral::CharacterDataLoadError(e) => MessageView::CharacterDataLoadError(e@),
            ServerGeneral::ServerMsg(kind, text) => MessageView::ServerMsg(kind, text@),
            ServerGeneral::Disconnect(reason) => MessageView::Disconnect(reason),
        }
    }
}

/// What the rest of the game has to tell a client that is let in. It is handed
/// through as it is, so its types are left to the caller.
#[derive(Debug)]
pub struct SyncData<P, B, S, A> {
    /// The components of the client's entity.
    pub entity_package: P,
    pub recipe_book: B,
    pub material_stats: S,
    pub ability_map: A,
}

/// The rules of the server, the map of its world and what the rest of the game has
/// to tell, for a client that is let in.
#[derive(Debug)]
pub struct GameSync<'a, M, P, B, S, A> {
    pub entity: Entity,
    pub max_group_size: u32,
    pub client_timeout: TimeSpan,
    pub world_map: &'a M,
    pub data: SyncData<P, B, S, A>,
}

/// What the server tells those who ask for it.
#[derive(Debug)]
pub struct ServerInfo {
    pub name: String,
    pub description: String,
    pub git_hash: String,
    pub git_date: String,
    pub auth_provider: Option<String>,
}

/// Something that happened in a tick, for whoever runs the server.
#[derive(Debug)]
pub enum Event<G> {
    ClientConnected { entity: Entity },
    /// Something that happened in the game.
    Game(G),
}

/// Something the server will deal with in its next round of events.
#[derive(Debug)]
pub enum ServerEvent<D> {
    UpdateCharacterData { entity: Entity, components: D },
    ExitIngame { entity: Entity },
}

/// Something to be done, in the order in which it is listed.
#[derive(Debug)]
pub enum Effect<L, D> {
    Send(Entity, ServerGeneral<L>),
    Emit(ServerEvent<D>),
}

/// [`Effect`], by the text it holds.
pub enum EffectView<L, D> {
    Send(Entity, MessageView<L>),
    Emit(ServerEvent<D>),
}

impl<L, D> View for Effect<L, D> {
    type V = EffectView<L, D>;

    open spec fn view(&self) -> EffectView<L, D> {
        match *self {
            Effect::Send(entity, msg) => EffectView::Send(entity, msg@),
            Effect::Emit(event) => EffectView::Emit(event),
        }
    }
}

/// The views of the effects.
pub open spec fn effect_views<L, D>(effects: Seq<Effect<L, D>>) -> Seq<EffectView<L, D>> {
    effects.map_values(|e: Effect<L, D>| e@)
}

/// What it takes to say `msg` to `entity`: a message, if someone is connected
/// through it; nothing otherwise.
pub open spec fn notice<L, D>(state: State, entity: Entity, msg: MessageView<L>) -> Seq<
    EffectView<L, D>,
> {
    if state.is_client(entity) {
        seq![EffectView::Send(entity, msg)]
    } else {
        Seq::empty()
    }
}

/// Says `msg` to `entity`, if someone is connected through it.
pub fn notify<L, D>(
    state: &State,
    entity: Entity,
    msg: ServerGeneral<L>,
    effects: &mut Vec<Effect<L, D>>,
)
    ensures
        effect_views(final(effects)@) == effect_views(old(effects)@) + notice(*state, entity, msg@),
{
    let ghost before = effect_views(effects@);
    if state.has_client(entity) {
        effects.push(Effect::Send(entity, msg));
    }
    assert(effect_views(effects@) =~= before + notice::<L, D>(*state, entity, msg@));
}

/// A message and an effect are seen as they are: nothing of them is left out or
/// changed.
pub proof fn messages_are_seen_as_they_are<L, D>(
    list: L,
    text: String,
    id: i64,
    kind: ChatType,
    reason: DisconnectReason,
    entity: Entity,
    msg: ServerGeneral<L>,
    event: ServerEvent<D>,
    effects: Seq<Effect<L, D>>,
)
    ensures
        ServerGeneral::CharacterListUpdate(list)@ == MessageView::CharacterListUpdate(list),
        ServerGeneral::<L>::CharacterActionError(text)@
            == MessageView::<L>::CharacterActionError(text@),
        ServerGeneral::<L>::CharacterCreated(id)@ == MessageView::<L>::CharacterCreated(id),
        ServerGeneral::<L>::CharacterDataLoadError(text)@
            == MessageView::<L>::CharacterDataLoadError(text@),
        ServerGeneral::<L>::ServerMsg(kind, text)@ == MessageView::<L>::ServerMsg(kind, text@),
        ServerGeneral::<L>::Disconnect(reason)@ == MessageView::<L>::Disconnect(reason),
        Effect::<L, D>::Send(entity, msg)@ == EffectView::<L, D>::Send(entity, msg@),
        Effect::<L, D>::Emit(event)@ == EffectView::<L, D>::Emit(event),
        effect_views(effects).len() == effects.len(),
        forall|i: int| 0 <= i < effects.len() ==> #[trigger] effect_views(effects)[i] == effects[i]@,
{
}

/// A message is sent once, to the entity it is for, if that is the entity of a
/// living client; otherwise nothing is sent.
pub proof fn notices_go_to_living_clients<L, D>(state: State, entity: Entity, msg: MessageView<L>)
    requires
        state.wf(),
    ensures
        (exists|i: int|
            0 <= i < state.entities@.len() && (#[trigger] state.entities@[i]).entity == entity
                && state.entities@[i].client) ==> notice::<L, D>(state, entity, msg) == seq![
            EffectView::<L, D>::Send(entity, msg),
        ],
        (forall|i: int|
            0 <= i < state.entities@.len() ==> (#[trigger] state.entities@[i]).entity != entity
                || !state.entities@[i].client) ==> notice::<L, D>(state, entity, msg).len() == 0,
{
    clients_are_the_connected(state, entity);
}

} // verus!
