use crate::identity::Identity;
use vstd::prelude::*;
use vstd::utf8::encode_utf8;

verus! {

/// The longest name of a profile, in bytes.
pub const MAX_NAME_LEN: usize = 100;

/// The longest content of a todo, in bytes.
pub const MAX_CONTENT_LEN: usize = 200;

/// Why a request on a profile or a todo was refused.
#[derive(Clone, Copy, Debug, PartialEq, Eq, Structural)]
pub enum TodoError {
    /// The name is longer than `MAX_NAME_LEN` bytes.
    NameTooLong,
    /// The content is longer than `MAX_CONTENT_LEN` bytes.
    ContentTooLong,
    /// The caller is not the authority of the profile.
    InvalidAuthority,
}

/// A profile: who may change it, and how many todos it counts.
#[derive(Debug, PartialEq, Eq)]
pub struct Profile {
    /// The identity under which the profile is kept.
    pub key: Identity,
    pub name: String,
    pub authority: Identity,
    pub todo_count: u8,
}

/// One todo of a profile.
#[derive(Debug, PartialEq, Eq)]
pub struct Todo {
    pub content: String,
    /// The identity of the profile that the todo belongs to.
    pub profile: Identity,
    pub completed: bool,
}

/// A request by `creator` to fill in the profile kept under `address`.
#[derive(Debug, PartialEq, Eq)]
pub struct CreateProfile {
    pub creator: Identity,
    pub address: Identity,
    pub profile: Profile,
}

/// A request by `creator` to add `todo` to `profile`.
#[derive(Debug, PartialEq, Eq)]
pub struct CreateTodo {
    pub creator: Identity,
    pub profile: Profile,
    pub todo: Todo,
}

/// A request by `creator` to flip `todo` of `profile` between open and done.
#[derive(Debug, PartialEq, Eq)]
pub struct ToggleTodo {
    pub creator: Identity,
    pub profile: Profile,
    pub todo: Todo,
}

/// A request by `creator` to give `todo` of `profile` another content.
#[derive(Debug, PartialEq, Eq)]
pub struct UpdateTodo {
    pub creator: Identity,
    pub profile: Profile,
    pub todo: Todo,
}

/// A request by `creator` to remove `todo` of `profile`.
#[derive(Debug, PartialEq, Eq)]
pub struct DeleteTodo {
    pub creator: Identity,
    pub profile: Profile,
    pub todo: Todo,
}

/// The length of `text` in bytes, as it is stored.
pub open spec fn byte_len(text: Seq<char>) -> nat {
    encode_utf8(text).len()
}

/// Fills in the profile of the request: it is kept under the request's
/// address, named `name`, under the authority of the creator, and counts no
/// todo. Refused with `NameTooLong`, and nothing changed, where `name` is
/// longer than `MAX_NAME_LEN` bytes.
#[allow(non_snake_case)]
pub fn createProfile(ctx: &mut CreateProfile, name: String) -> (result: Result<(), TodoError>)
    ensures
        byte_len(name@) > MAX_NAME_LEN ==> result == Err::<(), TodoError>(TodoError::NameTooLong)
            && *final(ctx) == *old(ctx),
        byte_len(name@) <= MAX_NAME_LEN ==> result == Ok::<(), TodoError>(()) && *final(ctx) == (
        CreateProfile {
            profile: Profile {
                key: old(ctx).address,
                name,
                authority: old(ctx).creator,
                todo_count: 0,
            },
            ..*old(ctx)
        }),
{
    if name.as_str().as_bytes().len() > MAX_NAME_LEN {
        return Err(TodoError::NameTooLong);
    }
    ctx.profile.key = ctx.address;
    ctx.profile.name = name;
    ctx.profile.authority = ctx.creator;
    ctx.profile.todo_count = 0;
    Ok(())
}

/// Fills in the todo of the request with `content`, open, for the profile of
/// the request, which counts one todo more. Refused, and nothing changed,
/// where the creator is not the profile's authority (`InvalidAuthority`) and
/// where `content` is longer than `MAX_CONTENT_LEN` bytes (`ContentTooLong`).
pub fn create_todo(ctx: &mut CreateTodo, content: String) -> (result: Result<(), TodoError>)
    requires
        old(ctx).profile.todo_count < u8::MAX,
    ensures
        old(ctx).profile.authority != old(ctx).creator ==> result == Err::<(), TodoError>(
            TodoError::InvalidAuthority,
        ) && *final(ctx) == *old(ctx),
        old(ctx).profile.authority == old(ctx).creator && byte_len(content@) > MAX_CONTENT_LEN
            ==> result == Err::<(), TodoError>(TodoError::ContentTooLong) && *final(ctx) == *old(
            ctx,
        ),
        old(ctx).profile.authority == old(ctx).creator && byte_len(content@) <= MAX_CONTENT_LEN
            ==> result == Ok::<(), TodoError>(()) && *final(ctx) == (CreateTodo {
            profile: Profile {
                todo_count: (old(ctx).profile.todo_count + 1) as u8,
                ..old(ctx).profile
            },
            todo: Todo { content, profile: old(ctx).profile.key, completed: false },
            ..*old(ctx)
        }),
{
    if !ctx.profile.authority.same(&ctx.creator) {
        return Err(TodoError::InvalidAuthority);
    }
    if content.as_str().as_bytes().len() > MAX_CONTENT_LEN {
        return Err(TodoError::ContentTooLong);
    }
    ctx.todo.content = content;
    ctx.todo.profile = ctx.profile.key;
    ctx.todo.completed = false;
    ctx.profile.todo_count = ctx.profile.todo_count + 1;
    Ok(())
}

/// Checks a new content for the todo of the request; the todo keeps the
/// content it has. Refused where the creator is not the profile's authority
/// (`InvalidAuthority`) and where `content` is longer than `MAX_CONTENT_LEN`
/// bytes (`ContentTooLong`).
pub fn update_todo(ctx: &UpdateTodo, content: String) -> (result: Result<(), TodoError>)
    ensures
        result == if ctx.profile.authority != ctx.creator {
            Err::<(), TodoError>(TodoError::InvalidAuthority)
        } else if byte_len(content@) > MAX_CONTENT_LEN {
            Err::<(), TodoError>(TodoError::ContentTooLong)
        } else {
            Ok::<(), TodoError>(())
        },
{
    if !ctx.profile.authority.same(&ctx.creator) {
        return Err(TodoError::InvalidAuthority);
    }
    if content.as_str().as_bytes().len() > MAX_CONTENT_LEN {
        return Err(TodoError::ContentTooLong);
    }
    Ok(())
}

/// Grants the removal of the todo of the request to the profile's authority,
/// and refuses it to anyone else (`InvalidAuthority`). The profile's count
/// stays as it is.
pub fn delete_todo(ctx: &DeleteTodo) -> (result: Result<(), TodoError>)
    ensures
        result == if ctx.profile.authority != ctx.creator {
            Err::<(), TodoError>(TodoError::InvalidAuthority)
        } else {
            Ok::<(), TodoError>(())
        },
{
    if !ctx.profile.authority.same(&ctx.creator) {
        return Err(TodoError::InvalidAuthority);
    }
    Ok(())
}

/// Flips the todo of the request between open and done. Closing an open todo
/// takes one off the profile's count; reopening one leaves the count as it
/// is. Refused, and nothing changed, where the creator is not the profile's
/// authority (`InvalidAuthority`).
pub fn toggle_todo(ctx: &mut ToggleTodo) -> (result: Result<(), TodoError>)
    requires
        !old(ctx).todo.completed ==> old(ctx).profile.todo_count > 0,
    ensures
        old(ctx).profile.authority != old(ctx).creator ==> result == Err::<(), TodoError>(
            TodoError::InvalidAuthority,
        ) && *final(ctx) == *old(ctx),
        old(ctx).profile.authority == old(ctx).creator ==> result == Ok::<(), TodoError>(())
            && *final(ctx) == (ToggleTodo {
            profile: Profile {
                todo_count: if old(ctx).todo.completed {
                    old(ctx).profile.todo_count
                } else {
                    (old(ctx).profile.todo_count - 1) as u8
                },
                ..old(ctx).profile
            },
            todo: Todo { completed: !old(ctx).todo.completed, ..old(ctx).todo },
            ..*old(ctx)
        }),
{
    if !ctx.profile.authority.same(&ctx.creator) {
        return Err(TodoError::InvalidAuthority);
    }
    if !ctx.todo.completed {
        ctx.profile.todo_count = ctx.profile.todo_count - 1;
    }
    ctx.todo.completed = !ctx.todo.completed;
    Ok(())
}

} // verus!
