//! What the server does with what the database has found of its characters.

use crate::messages::{
    effect_views, notice, notify, Effect, EffectView, MessageView, ServerEvent, ServerGeneral,
};
use crate::state::{Entity, State};
use vstd::prelude::*;

verus! {

/// What was asked of the database, and what it found or why it found nothing.
#[derive(Debug)]
pub enum CharacterLoaderResponseKind<L, D> {
    /// The characters of a player.
    CharacterList(Result<L, String>),
    /// The character that was created, and the characters of its player.
    CharacterCreation(Result<(i64, L), String>),
    /// The data of the character that is about to enter the game.
    CharacterData(Result<D, String>),
}

/// An answer of the database to a request made for `entity`.
#[derive(Debug)]
pub struct CharacterLoaderResponse<L, D> {
    pub entity: Entity,
    pub result: CharacterLoaderResponseKind<L, D>,
}

/// What is done about an answer of the database.
pub open spec fn reaction<L, D>(state: State, response: CharacterLoaderResponse<L, D>) -> Seq<
    EffectView<L, D>,
> {
    let entity = response.entity;
    match response.result {
        CharacterLoaderResponseKind::CharacterList(Ok(list)) => notice(
            state,
            entity,
            MessageView::CharacterListUpdate(list),
        ),
        CharacterLoaderResponseKind::CharacterList(Err(e)) => notice(
            state,
            entity,
            MessageView::CharacterActionError(e@),
        ),
        CharacterLoaderResponseKind::CharacterCreation(Ok((id, list))) => notice::<L, D>(
            state,
            entity,
            MessageView::CharacterListUpdate(list),
        ) + notice(state, entity, MessageView::CharacterCreated(id)),
        CharacterLoaderResponseKind::CharacterCreation(Err(e)) => notice(
            state,
            entity,
            MessageView::CharacterActionError(e@),
        ),
        CharacterLoaderResponseKind::CharacterData(Ok(components)) => seq![
            EffectView::Emit(ServerEvent::UpdateCharacterData { entity, components }),
        ],
        CharacterLoaderResponseKind::CharacterData(Err(e)) => notice::<L, D>(
            state,
            entity,
            MessageView::CharacterDataLoadError(e@),
        ).push(EffectView::Emit(ServerEvent::ExitIngame { entity })),
    }
}

/// What is done about the answers of the database, one after the other.
pub open spec fn reactions<L, D>(
    state: State,
    responses: Seq<CharacterLoaderResponse<L, D>>,
) -> Seq<EffectView<L, D>>
    decreases responses.len(),
{
    if responses.len() == 0 {
        Seq::empty()
    } else {
        reactions(state, responses.drop_last()) + reaction(state, responses.last())
    }
}

/// Adds what is to be done about one answer of the database.
pub fn react<L, D>(
    state: &State,
    response: CharacterLoaderResponse<L, D>,
    effects: &mut Vec<Effect<L, D>>,
)
    ensures
        effect_views(final(effects)@) == effect_views(old(effects)@) + reaction(*state, response),
{
    let ghost before = effect_views(effects@);
    let entity = response.entity;
    match response.result {
        CharacterLoaderResponseKind::CharacterList(result) => match result {
            Ok(list) => notify(state, entity, ServerGeneral::CharacterListUpdate(list), effects),
            Err(e) => notify(state, entity, ServerGeneral::CharacterActionError(e), effects),
        },
        CharacterLoaderResponseKind::CharacterCreation(result) => match result {
            Ok((id, list)) => {
                notify(state, entity, ServerGeneral::CharacterListUpdate(list), effects);
                notify(state, entity, ServerGeneral::CharacterCreated(id), effects);
            },
            Err(e) => notify(state, entity, ServerGeneral::CharacterActionError(e), effects),
        },
        CharacterLoaderResponseKind::CharacterData(result) => {
            let message = match result {
                Ok(components) => ServerEvent::UpdateCharacterData { entity, components },
                Err(e) => {
                    notify(state, entity, ServerGeneral::CharacterDataLoadError(e), effects);
                    ServerEvent::ExitIngame { entity }
                },
            };
            let ghost told = effect_views(effects@);
            effects.push(Effect::Emit(message));
            assert(effect_views(effects@) =~= told.push(EffectView::Emit(message)));
        },
    }
    assert(effect_views(effects@) =~= before + reaction(*state, response));
}

/// What is to be done about the answers of the database, in this order.
pub fn react_to_all<L, D>(
    state: &State,
    responses: Vec<CharacterLoaderResponse<L, D>>,
) -> (effects: Vec<Effect<L, D>>)
    ensures
        effect_views(effects@) == reactions(*state, responses@),
{
    let mut effects: Vec<Effect<L, D>> = Vec::new();
    assert(effect_views(effects@) =~= Seq::empty());
    for response in it: responses.into_iter()
        invariant
            it.seq() == responses@,
            effect_views(effects@) == reactions(*state, responses@.take(it.index())),
    {
        proof {
            assert(responses@.take(it.index() + 1).drop_last() =~= responses@.take(it.index()));
        }
        react(state, response, &mut effects);
    }
    assert(responses@.take(responses@.len() as int) =~= responses@);
    effects
}

/// A player whose character could not be loaded leaves the game, whether or not
/// someone is still there to be told; and is told first.
pub proof fn failed_load_ends_the_game<L, D>(state: State, entity: Entity, e: String)
    ensures
        ({
            let r = reaction(
                state,
                CharacterLoaderResponse::<L, D> {
                    entity,
                    result: CharacterLoaderResponseKind::CharacterData(Err(e)),
                },
            );
            &&& r.len() > 0
            &&& r.last() == EffectView::<L, D>::Emit(ServerEvent::ExitIngame { entity })
            &&& r.drop_last() == notice::<L, D>(
                state,
                entity,
                MessageView::CharacterDataLoadError(e@),
            )
        }),
{
    let n = notice::<L, D>(state, entity, MessageView::CharacterDataLoadError(e@));
    assert(n.push(EffectView::Emit(ServerEvent::ExitIngame { entity })).drop_last() =~= n);
}

/// Answers that come in two batches are dealt with as if they had come in one.
pub proof fn reactions_concat<L, D>(
    state: State,
    first: Seq<CharacterLoaderResponse<L, D>>,
    second: Seq<CharacterLoaderResponse<L, D>>,
)
    ensures
        reactions(state, first + second) == reactions(state, first) + reactions(state, second),
    decreases second.len(),
{
    if second.len() == 0 {
        assert(first + second =~= first);
        assert(reactions(state, second) =~= Seq::empty());
        assert(reactions(state, first) + Seq::<EffectView<L, D>>::empty() =~= reactions(
            state,
            first,
        ));
    } else {
        reactions_concat(state, first, second.drop_last());
        assert((first + second).drop_last() =~= first + second.drop_last());
        assert((first + second).last() == second.last());
        assert(reactions(state, first + second) =~= reactions(state, first) + reactions(
            state,
            second,
        ));
    }
}

/// Nobody is written to who is not connected.
pub proof fn only_clients_are_written_to<L, D>(
    state: State,
    responses: Seq<CharacterLoaderResponse<L, D>>,
)
    ensures
        forall|i: int|
            0 <= i < reactions(state, responses).len() ==> (#[trigger] reactions(
                state,
                responses,
            )[i] matches EffectView::Send(to, _) ==> state.is_client(to)),
    decreases responses.len(),
{
    if responses.len() > 0 {
        only_clients_are_written_to(state, responses.drop_last());
        let head = reactions(state, responses.drop_last());
        let tail = reaction(state, responses.last());
        assert forall|i: int| 0 <= i < (head + tail).len() implies (#[trigger] (head
            + tail)[i] matches EffectView::Send(to, _) ==> state.is_client(to)) by {
            if i < head.len() {
                assert((head + tail)[i] == head[i]);
            } else {
                assert((head + tail)[i] == tail[i - head.len()]);
            }
        }
    }
}

/// Each answer of the database is dealt with in its own way. A list and a creation
/// are told to the client, a creation by the list first and the character then;
/// data goes to the very entity that it was asked for, whether or not someone is
/// connected through it; data that could not be had is told to the client, and the
/// entity leaves the game. What is told is told to the entity of the answer, if
/// someone is connected through it, and to nobody else.
pub proof fn every_answer_is_dealt_with<L, D>(
    state: State,
    entity: Entity,
    list: L,
    id: i64,
    e: String,
    components: D,
)
    ensures
        reaction(
            state,
            CharacterLoaderResponse::<L, D> {
                entity,
                result: CharacterLoaderResponseKind::CharacterData(Ok(components)),
            },
        ) == seq![
            EffectView::<L, D>::Emit(ServerEvent::UpdateCharacterData { entity, components }),
        ],
        reaction(
            state,
            CharacterLoaderResponse::<L, D> {
                entity,
                result: CharacterLoaderResponseKind::CharacterData(Err(e)),
            },
        ) == if state.is_client(entity) {
            seq![
                EffectView::<L, D>::Send(entity, MessageView::CharacterDataLoadError(e@)),
                EffectView::<L, D>::Emit(ServerEvent::ExitIngame { entity }),
            ]
        } else {
            seq![EffectView::<L, D>::Emit(ServerEvent::ExitIngame { entity })]
        },
        reaction(
            state,
            CharacterLoaderResponse::<L, D> {
                entity,
                result: CharacterLoaderResponseKind::CharacterList(Ok(list)),
            },
        ) == if state.is_client(entity) {
            seq![EffectView::<L, D>::Send(entity, MessageView::CharacterListUpdate(list))]
        } else {
            Seq::empty()
        },
        reaction(
            state,
            CharacterLoaderResponse::<L, D> {
                entity,
                result: CharacterLoaderResponseKind::CharacterList(Err(e)),
            },
        ) == if state.is_client(entity) {
            seq![EffectView::<L, D>::Send(entity, MessageView::CharacterActionError(e@))]
        } else {
            Seq::empty()
        },
        reaction(
            state,
            CharacterLoaderResponse::<L, D> {
                entity,
                result: CharacterLoaderResponseKind::CharacterCreation(Ok((id, list))),
            },
        ) == if state.is_client(entity) {
            seq![
                EffectView::<L, D>::Send(entity, MessageView::CharacterListUpdate(list)),
                EffectView::<L, D>::Send(entity, MessageView::CharacterCreated(id)),
            ]
        } else {
            Seq::empty()
        },
        reaction(
            state,
            CharacterLoaderResponse::<L, D> {
                entity,
                result: CharacterLoaderResponseKind::CharacterCreation(Err(e)),
            },
        ) == if state.is_client(entity) {
            seq![EffectView::<L, D>::Send(entity, MessageView::CharacterActionError(e@))]
        } else {
            Seq::empty()
        },
{
    let kinds = |result: CharacterLoaderResponseKind<L, D>|
        reaction(state, CharacterLoaderResponse::<L, D> { entity, result });
    let list_sent = EffectView::<L, D>::Send(entity, MessageView::CharacterListUpdate(list));
    let created = EffectView::<L, D>::Send(entity, MessageView::CharacterCreated(id));
    let failed = EffectView::<L, D>::Send(entity, MessageView::CharacterDataLoadError(e@));
    let exit = EffectView::<L, D>::Emit(ServerEvent::ExitIngame { entity });
    if state.is_client(entity) {
        assert(kinds(CharacterLoaderResponseKind::CharacterCreation(Ok((id, list))))
            =~= seq![list_sent, created]);
        assert(kinds(CharacterLoaderResponseKind::CharacterData(Err(e))) =~= seq![failed, exit]);
    } else {
        assert(kinds(CharacterLoaderResponseKind::CharacterCreation(Ok((id, list))))
            =~= Seq::empty());
        assert(kinds(CharacterLoaderResponseKind::CharacterData(Err(e))) =~= seq![exit]);
    }
}

/// Every effect of a reaction names the entity of the answer, and no other.
pub proof fn reactions_name_their_entity<L, D>(
    state: State,
    response: CharacterLoaderResponse<L, D>,
    i: int,
)
    requires
        0 <= i < reaction(state, response).len(),
    ensures
        match reaction(state, response)[i] {
            EffectView::Send(to, _) => to == response.entity,
            EffectView::Emit(ServerEvent::UpdateCharacterData { entity, components: _ }) => entity
                == response.entity,
            EffectView::Emit(ServerEvent::ExitIngame { entity }) => entity == response.entity,
        },
{
}

/// No answer leads to nothing, and a single answer to its own reaction.
pub proof fn single_answers_are_dealt_with_alone<L, D>(
    state: State,
    response: CharacterLoaderResponse<L, D>,
)
    ensures
        reactions(state, Seq::<CharacterLoaderResponse<L, D>>::empty()).len() == 0,
        reactions(state, seq![response]) == reaction(state, response),
{
    reveal_with_fuel(reactions, 2);
    assert(seq![response].drop_last() =~= Seq::empty());
    assert(reactions(state, seq![response]) =~= reaction(state, response));
}

} // verus!
