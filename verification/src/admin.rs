//! Who may administrate the server.

use crate::settings::EditableSettings;
use vstd::prelude::*;

verus! {

broadcast use vstd::std_specs::hash::group_hash_axioms;

/// What became of a request to change the list of administrators.
#[derive(Clone, Copy, Debug, PartialEq, Eq, Structural)]
pub enum AdminChange {
    /// The account is an administrator now and was none before.
    Added,
    /// The account was an administrator already.
    AlreadyAdmin,
    /// The account was an administrator and is none now.
    Removed,
    /// The account was no administrator.
    NotAdmin,
    /// The user has no account, or the accounts could not be asked.
    UnknownUser,
}

/// The administrators after a user who was looked up is added to `admins`.
pub open spec fn with_admin<E>(admins: Set<u128>, lookup: Result<u128, E>) -> Set<u128> {
    match lookup {
        Ok(uuid) => admins.insert(uuid),
        Err(_) => admins,
    }
}

/// The administrators after a user who was looked up is removed from `admins`.
pub open spec fn without_admin<E>(admins: Set<u128>, lookup: Result<u128, E>) -> Set<u128> {
    match lookup {
        Ok(uuid) => admins.remove(uuid),
        Err(_) => admins,
    }
}

/// Makes the account that a user name was looked up to an administrator.
pub fn add_admin<E>(
    lookup: Result<u128, E>,
    editable_settings: &mut EditableSettings,
) -> (change: AdminChange)
    ensures
        final(editable_settings).admins@ == with_admin(old(editable_settings).admins@, lookup),
        final(editable_settings).server_description == old(editable_settings).server_description,
        change == match lookup {
            Ok(uuid) => if old(editable_settings).admins@.contains(uuid) {
                AdminChange::AlreadyAdmin
            } else {
                AdminChange::Added
            },
            Err(_) => AdminChange::UnknownUser,
        },
{
    match lookup {
        Ok(uuid) => {
            if editable_settings.admins.insert(uuid) {
                AdminChange::Added
            } else {
                AdminChange::AlreadyAdmin
            }
        },
        Err(_) => AdminChange::UnknownUser,
    }
}

/// Takes the account that a user name was looked up to off the list of
/// administrators.
pub fn remove_admin<E>(
    lookup: Result<u128, E>,
    editable_settings: &mut EditableSettings,
) -> (change: AdminChange)
    ensures
        final(editable_settings).admins@ == without_admin(old(editable_settings).admins@, lookup),
        final(editable_settings).server_description == old(editable_settings).server_description,
        change == match lookup {
            Ok(uuid) => if old(editable_settings).admins@.contains(uuid) {
                AdminChange::Removed
            } else {
                AdminChange::NotAdmin
            },
            Err(_) => AdminChange::UnknownUser,
        },
{
    match lookup {
        Ok(uuid) => {
            if editable_settings.admins.remove(&uuid) {
                AdminChange::Removed
            } else {
                AdminChange::NotAdmin
            }
        },
        Err(_) => AdminChange::UnknownUser,
    }
}

/// An account that was added is an administrator, and adding it again changes
/// nothing; every other account is what it was.
pub proof fn added_admin_is_admin(admins: Set<u128>, uuid: u128, other: u128)
    ensures
        with_admin::<()>(admins, Ok(uuid)).contains(uuid),
        with_admin::<()>(with_admin::<()>(admins, Ok(uuid)), Ok(uuid)) == with_admin::<()>(
            admins,
            Ok(uuid),
        ),
        other != uuid ==> (with_admin::<()>(admins, Ok(uuid)).contains(other) <==> admins.contains(
            other,
        )),
{
    assert(admins.insert(uuid).insert(uuid) =~= admins.insert(uuid));
}

/// An account that was removed is no administrator, and removing it again changes
/// nothing; every other account is what it was.
pub proof fn removed_admin_is_no_admin(admins: Set<u128>, uuid: u128, other: u128)
    ensures
        !without_admin::<()>(admins, Ok(uuid)).contains(uuid),
        without_admin::<()>(without_admin::<()>(admins, Ok(uuid)), Ok(uuid))
            == without_admin::<()>(admins, Ok(uuid)),
        other != uuid ==> (without_admin::<()>(admins, Ok(uuid)).contains(other)
            <==> admins.contains(other)),
{
    assert(admins.remove(uuid).remove(uuid) =~= admins.remove(uuid));
}

/// Removing an administrator undoes adding one, and the other way round.
pub proof fn add_and_remove_undo_each_other(admins: Set<u128>, uuid: u128)
    ensures
        !admins.contains(uuid) ==> without_admin::<()>(
            with_admin::<()>(admins, Ok(uuid)),
            Ok(uuid),
        ) == admins,
        admins.contains(uuid) ==> with_admin::<()>(
            without_admin::<()>(admins, Ok(uuid)),
            Ok(uuid),
        ) == admins,
{
    if admins.contains(uuid) {
        assert(admins.remove(uuid).insert(uuid) =~= admins);
    } else {
        assert(admins.insert(uuid).remove(uuid) =~= admins);
    }
}

/// The order in which administrators are added does not matter, nor that in which
/// they are removed.
pub proof fn order_does_not_matter(admins: Set<u128>, a: u128, b: u128)
    ensures
        with_admin::<()>(with_admin::<()>(admins, Ok(a)), Ok(b)) == with_admin::<()>(
            with_admin::<()>(admins, Ok(b)),
            Ok(a),
        ),
        without_admin::<()>(without_admin::<()>(admins, Ok(a)), Ok(b)) == without_admin::<()>(
            without_admin::<()>(admins, Ok(b)),
            Ok(a),
        ),
{
    assert(admins.insert(a).insert(b) =~= admins.insert(b).insert(a));
    assert(admins.remove(a).remove(b) =~= admins.remove(b).remove(a));
}

/// A user who could not be looked up changes nothing.
pub proof fn unknown_users_change_nothing<E>(admins: Set<u128>, e: E)
    ensures
        with_admin::<E>(admins, Err(e)) == admins,
        without_admin::<E>(admins, Err(e)) == admins,
{
}

/// Adding an account makes it an administrator and no other account one; removing it
/// makes it none and no other account none.
pub proof fn only_the_account_changes<E>(admins: Set<u128>, uuid: u128, other: u128)
    ensures
        with_admin::<E>(admins, Ok(uuid)).contains(other) <==> admins.contains(other) || other
            == uuid,
        without_admin::<E>(admins, Ok(uuid)).contains(other) <==> admins.contains(other) && other
            != uuid,
{
}

} // verus!
