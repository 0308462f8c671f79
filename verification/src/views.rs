//! What the participant and admin pages show beside stored records: authors
//! of discussions and comments, team members' names, whether a user joined
//! an event, and the bodies of the remaining requests.

use vstd::prelude::*;
use crate::content::merged_ids;
use crate::text::{trim, trimmed};

verus! {

/// What is shown of an author.
#[derive(Clone, Debug)]
pub struct AuthorInfo {
    pub nickname: String,
    pub avatar: Option<String>,
}

/// A discussion with its author; `D` is the stored discussion.
#[derive(Clone, Debug)]
pub struct DiscussionWithAuthor<D> {
    pub discussion: D,
    pub author_nickname: String,
    pub author_avatar: Option<String>,
    pub is_liked: bool,
}

/// A comment with its author; `C` is the stored comment.
#[derive(Clone, Debug)]
pub struct CommentWithAuthor<C> {
    pub comment: C,
    pub author_nickname: String,
    pub author_avatar: Option<String>,
}

/// The name shown for an author: the nickname, or the author's id when the
/// account is gone.
pub open spec fn author_name(author_id: Seq<char>, author: Option<AuthorInfo>) -> Seq<char> {
    match author {
        Some(a) => a.nickname@,
        None => author_id,
    }
}

/// The avatar shown for an author (none when the account is gone).
pub open spec fn author_avatar(author: Option<AuthorInfo>) -> Option<String> {
    match author {
        Some(a) => a.avatar,
        None => None,
    }
}

fn author_fields(author_id: String, author: Option<AuthorInfo>) -> (r: (String, Option<String>))
    ensures
        r.0@ == author_name(author_id@, author),
        r.1 == author_avatar(author),
{
    match author {
        Some(a) => (a.nickname, a.avatar),
        None => (author_id, None),
    }
}

/// A discussion shown with its author (`author_id` is the author's id in
/// text form) and whether the viewer liked it.
pub fn discussion_with_author<D>(
    discussion: D,
    author_id: String,
    author: Option<AuthorInfo>,
    is_liked: bool,
) -> (r: DiscussionWithAuthor<D>)
    ensures
        r.discussion == discussion,
        r.author_nickname@ == author_name(author_id@, author),
        r.author_avatar == author_avatar(author),
        r.is_liked == is_liked,
{
    let (n, a) = author_fields(author_id, author);
    DiscussionWithAuthor { discussion, author_nickname: n, author_avatar: a, is_liked }
}

/// A comment shown with its author.
pub fn comment_with_author<C>(comment: C, author_id: String, author: Option<AuthorInfo>) -> (r:
    CommentWithAuthor<C>)
    ensures
        r.comment == comment,
        r.author_nickname@ == author_name(author_id@, author),
        r.author_avatar == author_avatar(author),
{
    let (n, a) = author_fields(author_id, author);
    CommentWithAuthor { comment, author_nickname: n, author_avatar: a }
}

/// A discussion's views grow by one when somebody other than its author
/// reads it.
pub fn views_after_read(views: i32, author: u128, reader: u128) -> (r: i32)
    requires
        author != reader ==> views < i32::MAX,
    ensures
        r == if author == reader {
            views as int
        } else {
            views + 1
        },
{
    if author == reader {
        views
    } else {
        views + 1
    }
}

/// A member of an event's team, with its nickname; `M` is the stored
/// membership.
#[derive(Clone, Debug)]
pub struct EventTeamMemberResult<M> {
    pub member_name: String,
    pub member: M,
}

/// A team with its members; `T` is the stored team.
#[derive(Clone, Debug)]
pub struct EventTeamResult<T, M> {
    pub team: T,
    pub members: Vec<EventTeamMemberResult<M>>,
}

/// A member with the nickname of its account (empty when the account is
/// gone).
pub fn team_member<M>(member: M, nickname: Option<String>) -> (r: EventTeamMemberResult<M>)
    ensures
        r.member == member,
        nickname.is_some() ==> r.member_name == nickname.unwrap(),
        nickname.is_none() ==> r.member_name@ == Seq::<char>::empty(),
{
    let name = match nickname {
        Some(n) => n,
        None => String::new(),
    };
    EventTeamMemberResult { member_name: name, member }
}

/// An event as a participant sees it; `E` is the stored event.
#[derive(Clone, Debug)]
pub struct EventInfo<E, T, M> {
    pub event: E,
    pub team_result: Option<EventTeamResult<T, M>>,
    pub joined: bool,
}

/// Whether `user` is among the users of an event.
pub fn joined_event(event_users: &Vec<u128>, user: u128) -> (r: bool)
    ensures
        r == event_users@.contains(user),
{
    let mut i: usize = 0;
    while i < event_users.len()
        invariant
            i <= event_users.len(),
            forall|k: int| 0 <= k < i ==> event_users@[k] != user,
        decreases event_users.len() - i,
    {
        if event_users[i] == user {
            proof {
                assert(event_users@[i as int] == user);
            }
            return true;
        }
        i = i + 1;
    }
    false
}

/// An instance of a challenge in an event; `I` is the stored instance, whose
/// flag is not shown.
#[derive(Clone, Debug)]
pub struct EventInstanceResult<I> {
    pub instance: I,
    pub challenge_name: String,
    pub user_nickname: String,
}

/// A team with its members' accounts.
#[derive(Clone, Debug)]
pub struct GetTeamMembersResult<T, U> {
    pub team: T,
    pub members: Vec<U>,
}

/// A user of an event with its registration.
#[derive(Clone, Debug)]
pub struct EventUserResult<U, R> {
    pub user: U,
    pub event_user: R,
}

/// A practice solve with its solver.
#[derive(Clone, Debug)]
pub struct SolveResult<S> {
    pub solve: S,
    pub nickname: String,
    pub avatar: Option<String>,
}

/// A writeup of a practice challenge with its author.
#[derive(Clone, Debug)]
pub struct ChallengeWriteupResult<C, W> {
    pub nickname: String,
    pub email: String,
    pub challenge: C,
    pub writeup: W,
}

/// The body of a practice writeup.
#[derive(Clone, Debug)]
pub struct CreateChallengeWriteup {
    pub content: String,
}

/// The body of a request that adds a team to an event.
#[derive(Clone, Debug)]
pub struct AddTeamRequest {
    pub name: String,
    pub description: Option<String>,
}

/// The body of a request that adds a user to a team.
#[derive(Debug)]
pub struct AddUserToTeamRequest {
    pub user_id: uuid::Uuid,
}

/// The body of a request that adds users to an event.
#[derive(Debug)]
pub struct AddUserRequest {
    pub user_id: Option<uuid::Uuid>,
    pub user_id_list: Option<Vec<uuid::Uuid>>,
}

impl AddUserRequest {
    /// The users named: the single one first, then the list.
    pub fn ids(self) -> (r: Vec<uuid::Uuid>)
        ensures
            r@ == match self.user_id {
                Some(x) => seq![x],
                None => Seq::<uuid::Uuid>::empty(),
            } + match self.user_id_list {
                Some(l) => l@,
                None => Seq::<uuid::Uuid>::empty(),
            },
    {
        merged_ids(self.user_id, self.user_id_list)
    }
}

/// The body of a request that starts an instance of a challenge.
#[derive(Debug)]
pub struct LaunchInstanceRequest {
    pub event_id: Option<uuid::Uuid>,
    pub challenge_id: uuid::Uuid,
}

/// The body of a flag submission.
#[derive(Debug)]
pub struct SubmitFlagRequest {
    pub event_id: Option<uuid::Uuid>,
    pub instance_id: Option<uuid::Uuid>,
    pub flag: String,
}

impl SubmitFlagRequest {
    /// The flag as it is checked: without surrounding white space.
    pub fn submitted_flag(&self) -> (r: String)
        ensures
            r@ == trim(self.flag@),
    {
        trimmed(self.flag.as_str())
    }
}

/// What a download link is asked for.
#[derive(Clone, Copy, Debug)]
pub enum DownloadQuery {
    EventWriteup { event_id: i64 },
}

/// Where an event's writeup is stored: under `writeups/`, by event and by
/// the team (or user) that sent it, named after it.
pub fn writeup_key(event_id: &str, owner_id: &str, owner_name: &str) -> (r: String)
    ensures
        r@ == "writeups/"@ + event_id@ + "/"@ + owner_id@ + "/"@ + owner_name@ + ".pdf"@,
{
    let mut s = String::from_str("writeups/");
    s.append(event_id);
    s.append("/");
    s.append(owner_id);
    s.append("/");
    s.append(owner_name);
    s.append(".pdf");
    s
}

/// The value of a yes/no filter: `true` only for the text `true`
/// (`bool::from_str`, with anything unreadable taken as `false`).
pub fn parse_flag(v: &str) -> (r: bool)
    ensures
        r == (v@ == "true"@),
{
    crate::text::str_equals(v, "true")
}

} // verus!
