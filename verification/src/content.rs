//! The platform's content managed through requests: announcements,
//! challenges and their sets, weapons, accounts, discussions and comments;
//! the bodies of those requests, and how a change applies to what is stored.

use vstd::prelude::*;
use crate::error::UniError;
use crate::settings::kept;

verus! {

#[verifier::external_type_specification]
#[verifier::external_body]
pub struct ExUuid(uuid::Uuid);

/// The ids a request names: the single one first, then the list.
pub fn merged_ids<T>(single: Option<T>, list: Option<Vec<T>>) -> (r: Vec<T>)
    ensures
        r@ == match single {
            Some(x) => seq![x],
            None => Seq::<T>::empty(),
        } + match list {
            Some(l) => l@,
            None => Seq::<T>::empty(),
        },
{
    let mut out: Vec<T> = Vec::new();
    if let Some(x) = single {
        out.push(x);
    }
    if let Some(mut l) = list {
        out.append(&mut l);
    }
    out
}

/// The body of a request that deletes several items.
#[derive(Debug)]
pub struct DeleteItemsRequest {
    pub id_list: Vec<uuid::Uuid>,
}

// ── announcements ──────────────────────────────────────────────────────────

/// An announcement as stored.
#[derive(Clone, Debug)]
pub struct AnnouncementRecord {
    pub title: String,
    pub content: Option<String>,
}

#[derive(Clone, Debug)]
pub struct CreateAnnouncementRequest {
    pub title: String,
    pub content: Option<String>,
}

/// A change of an announcement; a given `content` replaces the stored one,
/// `Some(None)` clears it.
#[derive(Clone, Debug)]
pub struct PatchAnnouncementRequest {
    pub title: Option<String>,
    pub content: Option<Option<String>>,
}

pub open spec fn announcement_patched(
    a: AnnouncementRecord,
    p: PatchAnnouncementRequest,
) -> AnnouncementRecord {
    AnnouncementRecord { title: kept(a.title, p.title), content: kept(a.content, p.content) }
}

impl PatchAnnouncementRequest {
    pub fn apply(self, a: AnnouncementRecord) -> (r: AnnouncementRecord)
        ensures
            r == announcement_patched(a, self),
            match self.title {
                Some(v) => r.title == v,
                None => r.title == a.title,
            },
            match self.content {
                Some(v) => r.content == v,
                None => r.content == a.content,
            },
    {
        let mut a = a;
        if let Some(t) = self.title {
            a.title = t;
        }
        if let Some(c) = self.content {
            a.content = c;
        }
        a
    }
}

#[derive(Clone, Debug)]
pub struct AddEventAnnouncementRequest {
    pub title: String,
    pub content: String,
}

/// An announcement of an event as stored.
#[derive(Clone, Debug)]
pub struct EventAnnouncementRecord {
    pub title: String,
    pub content: String,
}

#[derive(Clone, Debug)]
pub struct PatchEventAnnouncementRequest {
    pub title: Option<String>,
    pub content: Option<String>,
}

pub open spec fn event_announcement_patched(
    a: EventAnnouncementRecord,
    p: PatchEventAnnouncementRequest,
) -> EventAnnouncementRecord {
    EventAnnouncementRecord { title: kept(a.title, p.title), content: kept(a.content, p.content) }
}

impl PatchEventAnnouncementRequest {
    pub fn apply(self, a: EventAnnouncementRecord) -> (r: EventAnnouncementRecord)
        ensures
            r == event_announcement_patched(a, self),
            match self.title {
                Some(v) => r.title == v,
                None => r.title == a.title,
            },
            match self.content {
                Some(v) => r.content == v,
                None => r.content == a.content,
            },
    {
        let mut a = a;
        if let Some(t) = self.title {
            a.title = t;
        }
        if let Some(c) = self.content {
            a.content = c;
        }
        a
    }
}

// ── challenges ─────────────────────────────────────────────────────────────

/// A challenge as stored (what requests can change of it).
#[derive(Clone, Debug)]
pub struct ChallengeRecord {
    pub name: String,
    pub category: String,
    pub description: String,
    pub attachment: Option<String>,
    pub hidden: bool,
    pub toml_str: String,
}

#[derive(Clone, Debug)]
pub struct CreateChallengeRequest {
    pub name: String,
    pub category: String,
    pub description: String,
    pub hidden: bool,
    pub attachment: Option<String>,
    pub toml_str: String,
}

/// A change of a challenge; a given attachment replaces the stored one.
#[derive(Clone, Debug)]
pub struct PatchChallengeRequest {
    pub name: Option<String>,
    pub category: Option<String>,
    pub description: Option<String>,
    pub attachment: Option<String>,
    pub hidden: Option<bool>,
    pub toml_str: Option<String>,
}

pub open spec fn challenge_patched(c: ChallengeRecord, p: PatchChallengeRequest) -> ChallengeRecord {
    ChallengeRecord {
        name: kept(c.name, p.name),
        category: kept(c.category, p.category),
        description: kept(c.description, p.description),
        attachment: match p.attachment {
            Some(a) => Some(a),
            None => c.attachment,
        },
        hidden: kept(c.hidden, p.hidden),
        toml_str: kept(c.toml_str, p.toml_str),
    }
}

impl PatchChallengeRequest {
    pub fn apply(self, c: ChallengeRecord) -> (r: ChallengeRecord)
        ensures
            r == challenge_patched(c, self),
            match self.name {
                Some(v) => r.name == v,
                None => r.name == c.name,
            },
            match self.category {
                Some(v) => r.category == v,
                None => r.category == c.category,
            },
            match self.description {
                Some(v) => r.description == v,
                None => r.description == c.description,
            },
            match self.hidden {
                Some(v) => r.hidden == v,
                None => r.hidden == c.hidden,
            },
            match self.toml_str {
                Some(v) => r.toml_str == v,
                None => r.toml_str == c.toml_str,
            },
            match self.attachment {
                Some(v) => r.attachment == Some(v),
                None => r.attachment == c.attachment,
            },
    {
        let mut c = c;
        if let Some(n) = self.name {
            c.name = n;
        }
        if let Some(x) = self.category {
            c.category = x;
        }
        if let Some(d) = self.description {
            c.description = d;
        }
        if let Some(a) = self.attachment {
            c.attachment = Some(a);
        }
        if let Some(h) = self.hidden {
            c.hidden = h;
        }
        if let Some(t) = self.toml_str {
            c.toml_str = t;
        }
        c
    }
}

/// A change that gives no field leaves a challenge as it is, and making the
/// same change twice is making it once.
pub proof fn lemma_challenge_patch_laws(c: ChallengeRecord, p: PatchChallengeRequest)
    ensures
        challenge_patched(
            c,
            PatchChallengeRequest {
                name: None,
                category: None,
                description: None,
                attachment: None,
                hidden: None,
                toml_str: None,
            },
        ) == c,
        challenge_patched(challenge_patched(c, p), p) == challenge_patched(c, p),
{
}

/// The outcome of checking a challenge's files and image.
#[derive(Debug)]
pub struct ChallengeCheckResult {
    pub id: uuid::Uuid,
    pub challenge_name: String,
    pub is_ok: bool,
    pub docker_image: bool,
    pub attachment: bool,
}

impl ChallengeCheckResult {
    /// A challenge is in order when its attachment and its image both are.
    pub fn new(id: uuid::Uuid, challenge_name: String, attachment: bool, docker_image: bool) -> (r:
        Self)
        ensures
            r.id == id,
            r.challenge_name == challenge_name,
            r.attachment == attachment,
            r.docker_image == docker_image,
            r.is_ok == (attachment && docker_image),
    {
        ChallengeCheckResult { id, challenge_name, is_ok: attachment && docker_image, docker_image, attachment }
    }
}

#[derive(Debug)]
pub struct ChallengeCheckRequest {
    pub challenge_id_list: Option<Vec<uuid::Uuid>>,
}

impl ChallengeCheckRequest {
    /// Whether every challenge is checked: the list is absent or empty.
    pub fn checks_all(&self) -> (r: bool)
        ensures
            r == (self.challenge_id_list is None || self.challenge_id_list->Some_0.len() == 0),
    {
        match &self.challenge_id_list {
            None => true,
            Some(l) => l.len() == 0,
        }
    }
}

/// Whether a challenge with id `id` is checked for the request list
/// `requested`: every challenge when the list is absent or empty, else the
/// challenges it names.
pub open spec fn is_checked(requested: Option<Seq<u128>>, id: u128) -> bool {
    match requested {
        None => true,
        Some(l) => l.len() == 0 || l.contains(id),
    }
}

/// The positions, in order, of the challenges (by id) that are checked.
pub open spec fn checked_positions(requested: Option<Seq<u128>>, ids: Seq<u128>) -> Seq<usize>
    decreases ids.len(),
{
    if ids.len() == 0 {
        Seq::empty()
    } else {
        let p = checked_positions(requested, ids.drop_last());
        if is_checked(requested, ids.last()) {
            p.push((ids.len() - 1) as usize)
        } else {
            p
        }
    }
}

/// Which of the challenges whose ids are `ids` a check covers: all of them
/// when `requested` is absent or empty, else those whose ids it lists; the
/// result gives their positions in `ids`, in order.
pub fn checked_challenges(requested: &Option<Vec<u128>>, ids: &Vec<u128>) -> (r: Vec<usize>)
    ensures
        r@ == checked_positions(
            match requested {
                Some(l) => Some(l@),
                None => None,
            },
            ids@,
        ),
{
    let ghost req = match requested {
        Some(l) => Some(l@),
        None => None::<Seq<u128>>,
    };
    let mut out: Vec<usize> = Vec::new();
    let mut i: usize = 0;
    while i < ids.len()
        invariant
            i <= ids.len(),
            req == match requested {
                Some(l) => Some(l@),
                None => None::<Seq<u128>>,
            },
            out@ == checked_positions(req, ids@.take(i as int)),
        decreases ids.len() - i,
    {
        let id = ids[i];
        let checked = match requested {
            None => true,
            Some(l) => {
                if l.len() == 0 {
                    true
                } else {
                    let mut found = false;
                    let mut k: usize = 0;
                    while k < l.len()
                        invariant
                            k <= l.len(),
                            found == l@.take(k as int).contains(id),
                        decreases l.len() - k,
                    {
                        proof {
                            assert(l@.take(k + 1 as int) =~= l@.take(k as int).push(l@[k as int]));
                        }
                        let ghost before = l@.take(k as int);
                        let ghost after = l@.take(k + 1 as int);
                        if l[k] == id {
                            found = true;
                            proof {
                                assert(after[k as int] == id);
                            }
                        } else {
                            proof {
                                if after.contains(id) {
                                    let j = choose|j: int| 0 <= j < after.len() && after[j] == id;
                                    assert(j < k);
                                    assert(before[j] == id);
                                }
                                if before.contains(id) {
                                    let j = choose|j: int| 0 <= j < before.len() && before[j] == id;
                                    assert(after[j] == id);
                                }
                            }
                        }
                        k = k + 1;
                    }
                    proof {
                        assert(l@.take(l.len() as int) =~= l@);
                    }
                    found
                }
            },
        };
        proof {
            assert(ids@.take(i + 1 as int).drop_last() =~= ids@.take(i as int));
            assert(ids@.take(i + 1 as int).last() == id);
        }
        if checked {
            out.push(i);
        }
        i = i + 1;
    }
    proof {
        assert(ids@.take(ids.len() as int) =~= ids@);
    }
    out
}

#[derive(Debug)]
pub struct BuildChallengeRequest {
    pub challenge_id: Option<uuid::Uuid>,
    pub challenge_id_list: Option<Vec<uuid::Uuid>>,
}

#[derive(Clone, Debug)]
pub struct BuildChallengeResult {
    pub challenge_name: String,
    pub is_ok: bool,
    pub message: String,
}

#[derive(Debug)]
pub struct AddChallengeRequest {
    pub challenge_id: Option<uuid::Uuid>,
    pub challenge_id_list: Option<Vec<uuid::Uuid>>,
}

// ── challenge sets ─────────────────────────────────────────────────────────

#[derive(Debug)]
pub struct CreateChallengeSetRequest {
    pub name: String,
    pub description: Option<String>,
    pub challenge_id_list: Option<Vec<uuid::Uuid>>,
}

/// A challenge set as stored.
#[derive(Clone, Debug)]
pub struct ChallengeSetRecord {
    pub name: String,
    pub description: Option<String>,
}

/// A change of a challenge set; a given description replaces the stored one.
#[derive(Clone, Debug)]
pub struct PatchChallengeSetRequest {
    pub name: Option<String>,
    pub description: Option<String>,
}

pub open spec fn challenge_set_patched(
    s: ChallengeSetRecord,
    p: PatchChallengeSetRequest,
) -> ChallengeSetRecord {
    ChallengeSetRecord {
        name: kept(s.name, p.name),
        description: match p.description {
            Some(d) => Some(d),
            None => s.description,
        },
    }
}

impl PatchChallengeSetRequest {
    pub fn apply(self, s: ChallengeSetRecord) -> (r: ChallengeSetRecord)
        ensures
            r == challenge_set_patched(s, self),
            match self.name {
                Some(v) => r.name == v,
                None => r.name == s.name,
            },
            match self.description {
                Some(v) => r.description == Some(v),
                None => r.description == s.description,
            },
    {
        let mut s = s;
        if let Some(n) = self.name {
            s.name = n;
        }
        if let Some(d) = self.description {
            s.description = Some(d);
        }
        s
    }
}

#[derive(Debug)]
pub struct AddChallengeToSetRequest {
    pub challenge_id_list: Vec<uuid::Uuid>,
}

// ── weapons ────────────────────────────────────────────────────────────────

/// A weapon (a downloadable tool) as stored.
#[derive(Clone, Debug)]
pub struct WeaponRecord {
    pub name: String,
    pub category: String,
    pub description: Option<String>,
    pub has_file: bool,
    pub file_url: String,
    pub download_count: i64,
}

#[derive(Clone, Debug)]
pub struct CreateWeaponRequest {
    pub name: String,
    pub category: String,
    pub description: Option<String>,
    pub has_file: bool,
    pub file_url: String,
    pub download_count: i64,
}

#[derive(Clone, Debug)]
pub struct PatchWeaponRequest {
    pub name: Option<String>,
    pub category: Option<String>,
    pub description: Option<String>,
    pub has_file: Option<bool>,
    pub file_url: Option<String>,
    pub download_count: Option<i64>,
}

pub open spec fn weapon_patched(w: WeaponRecord, p: PatchWeaponRequest) -> WeaponRecord {
    WeaponRecord {
        name: kept(w.name, p.name),
        category: kept(w.category, p.category),
        description: match p.description {
            Some(d) => Some(d),
            None => w.description,
        },
        has_file: kept(w.has_file, p.has_file),
        file_url: kept(w.file_url, p.file_url),
        download_count: kept(w.download_count, p.download_count),
    }
}

impl PatchWeaponRequest {
    pub fn apply(self, w: WeaponRecord) -> (r: WeaponRecord)
        ensures
            r == weapon_patched(w, self),
            match self.name {
                Some(v) => r.name == v,
                None => r.name == w.name,
            },
            match self.category {
                Some(v) => r.category == v,
                None => r.category == w.category,
            },
            match self.has_file {
                Some(v) => r.has_file == v,
                None => r.has_file == w.has_file,
            },
            match self.file_url {
                Some(v) => r.file_url == v,
                None => r.file_url == w.file_url,
            },
            match self.download_count {
                Some(v) => r.download_count == v,
                None => r.download_count == w.download_count,
            },
            match self.description {
                Some(v) => r.description == Some(v),
                None => r.description == w.description,
            },
    {
        let mut w = w;
        if let Some(n) = self.name {
            w.name = n;
        }
        if let Some(c) = self.category {
            w.category = c;
        }
        if let Some(d) = self.description {
            w.description = Some(d);
        }
        if let Some(h) = self.has_file {
            w.has_file = h;
        }
        if let Some(f) = self.file_url {
            w.file_url = f;
        }
        if let Some(n) = self.download_count {
            w.download_count = n;
        }
        w
    }
}

// ── accounts managed by the super admin ────────────────────────────────────

#[derive(Clone, Debug)]
pub struct CreateSuperAdminRequest {
    pub username: String,
    pub password: String,
    pub email: String,
}

/// A super admin as stored; `password` holds the hash.
#[derive(Clone, Debug)]
pub struct SuperAdminRecord {
    pub username: String,
    pub password: String,
    pub email: String,
}

/// A change of a super admin; a given password is stored hashed.
#[derive(Clone, Debug)]
pub struct PatchSuperAdminRequest {
    pub username: Option<String>,
    pub password: Option<String>,
    pub email: Option<String>,
}

pub open spec fn super_admin_patched(
    a: SuperAdminRecord,
    p: PatchSuperAdminRequest,
    hashed: Option<String>,
) -> SuperAdminRecord {
    SuperAdminRecord {
        username: kept(a.username, p.username),
        password: kept(a.password, hashed),
        email: kept(a.email, p.email),
    }
}

impl PatchSuperAdminRequest {
    /// The super admin with the given fields replaced; `hashed` is the hash
    /// of the given password (there is one exactly when a password is given).
    pub fn apply(self, a: SuperAdminRecord, hashed: Option<String>) -> (r: SuperAdminRecord)
        requires
            self.password.is_some() == hashed.is_some(),
        ensures
            r == super_admin_patched(a, self, hashed),
            match self.username {
                Some(v) => r.username == v,
                None => r.username == a.username,
            },
            match hashed {
                Some(v) => r.password == v,
                None => r.password == a.password,
            },
            match self.email {
                Some(v) => r.email == v,
                None => r.email == a.email,
            },
    {
        let mut a = a;
        if let Some(u) = self.username {
            a.username = u;
        }
        if let Some(h) = hashed {
            a.password = h;
        }
        if let Some(e) = self.email {
            a.email = e;
        }
        a
    }
}

/// A user as stored (what the super admin can change of it); `password`
/// holds the hash.
#[derive(Clone, Debug)]
pub struct UserRecord {
    pub username: String,
    pub nickname: String,
    pub password: String,
    pub email: String,
}

/// A change of a user by the super admin; a given password is stored hashed.
#[derive(Clone, Debug)]
pub struct PathUserRequest {
    pub username: Option<String>,
    pub nickname: Option<String>,
    pub password: Option<String>,
    pub email: Option<String>,
}

pub open spec fn user_patched(u: UserRecord, p: PathUserRequest, hashed: Option<String>) -> UserRecord {
    UserRecord {
        username: kept(u.username, p.username),
        nickname: kept(u.nickname, p.nickname),
        password: kept(u.password, hashed),
        email: kept(u.email, p.email),
    }
}

impl PathUserRequest {
    /// The user with the given fields replaced; `hashed` is the hash of the
    /// given password (there is one exactly when a password is given).
    pub fn apply(self, u: UserRecord, hashed: Option<String>) -> (r: UserRecord)
        requires
            self.password.is_some() == hashed.is_some(),
        ensures
            r == user_patched(u, self, hashed),
            match self.username {
                Some(v) => r.username == v,
                None => r.username == u.username,
            },
            match self.nickname {
                Some(v) => r.nickname == v,
                None => r.nickname == u.nickname,
            },
            match hashed {
                Some(v) => r.password == v,
                None => r.password == u.password,
            },
            match self.email {
                Some(v) => r.email == v,
                None => r.email == u.email,
            },
    {
        let mut u = u;
        if let Some(x) = self.username {
            u.username = x;
        }
        if let Some(h) = hashed {
            u.password = h;
        }
        if let Some(e) = self.email {
            u.email = e;
        }
        if let Some(n) = self.nickname {
            u.nickname = n;
        }
        u
    }
}

// ── discussions ────────────────────────────────────────────────────────────

#[derive(Clone, Debug)]
pub struct CreateDiscussionRequest {
    pub title: String,
    pub content: String,
}

/// A discussion as stored (what its author can change of it).
#[derive(Clone, Debug)]
pub struct DiscussionRecord {
    pub title: String,
    pub content: String,
}

#[derive(Clone, Debug)]
pub struct PatchDiscussionRequest {
    pub title: Option<String>,
    pub content: Option<String>,
}

pub open spec fn discussion_patched(
    d: DiscussionRecord,
    p: PatchDiscussionRequest,
) -> DiscussionRecord {
    DiscussionRecord { title: kept(d.title, p.title), content: kept(d.content, p.content) }
}

impl PatchDiscussionRequest {
    pub fn apply(self, d: DiscussionRecord) -> (r: DiscussionRecord)
        ensures
            r == discussion_patched(d, self),
            match self.title {
                Some(v) => r.title == v,
                None => r.title == d.title,
            },
            match self.content {
                Some(v) => r.content == v,
                None => r.content == d.content,
            },
    {
        let mut d = d;
        if let Some(t) = self.title {
            d.title = t;
        }
        if let Some(c) = self.content {
            d.content = c;
        }
        d
    }
}

#[derive(Debug)]
pub struct CreateCommentRequest {
    pub content: String,
    pub parent_id: Option<uuid::Uuid>,
}

#[derive(Clone, Debug)]
pub struct PatchCommentRequest {
    pub content: Option<String>,
}

impl PatchCommentRequest {
    /// The comment's content after the change.
    pub fn apply(self, content: String) -> (r: String)
        ensures
            r == kept(content, self.content),
    {
        match self.content {
            Some(c) => c,
            None => content,
        }
    }
}

/// Only the author may change or delete a discussion.
pub fn check_author(author: u128, user: u128) -> (r: Result<(), UniError>)
    ensures
        author == user ==> r.is_ok(),
        author != user ==> (r matches Err(UniError::NotEnoughPermission)),
{
    if author != user {
        return Err(UniError::NotEnoughPermission);
    }
    Ok(())
}

/// A comment is changed or deleted through its own discussion, and only by
/// its author.
pub fn check_comment_access(comment_discussion: u128, discussion: u128, author: u128, user: u128) -> (r:
    Result<(), UniError>)
    ensures
        comment_discussion != discussion ==> (r matches Err(UniError::BadRequest(m)) && m@
            == "Comment does not belong to this discussion"@),
        comment_discussion == discussion && author != user ==> (r matches Err(
            UniError::NotEnoughPermission,
        )),
        comment_discussion == discussion && author == user ==> r.is_ok(),
{
    if comment_discussion != discussion {
        return Err(
            UniError::BadRequest(String::from_str("Comment does not belong to this discussion")),
        );
    }
    check_author(author, user)
}

/// A reply must answer a comment of the same discussion.
pub fn check_parent(parent_discussion: u128, discussion: u128) -> (r: Result<(), UniError>)
    ensures
        parent_discussion == discussion ==> r.is_ok(),
        parent_discussion != discussion ==> (r matches Err(UniError::BadRequest(m)) && m@
            == "Parent comment does not belong to this discussion"@),
{
    if parent_discussion != discussion {
        return Err(
            UniError::BadRequest(
                String::from_str("Parent comment does not belong to this discussion"),
            ),
        );
    }
    Ok(())
}

/// The like count after a like.
pub open spec fn liked(count: int) -> int {
    count + 1
}

/// The like count after a like is taken back: one less, never below zero.
pub open spec fn unliked(count: int) -> int {
    if count - 1 > 0 {
        count - 1
    } else {
        0
    }
}

/// The like count after a like.
pub fn count_after_like(count: i32) -> (r: i32)
    requires
        count < i32::MAX,
    ensures
        r == liked(count as int),
{
    count + 1
}

/// The like count after a like is taken back.
pub fn count_after_unlike(count: i32) -> (r: i32)
    ensures
        r == unliked(count as int),
{
    if count > 1 {
        count - 1
    } else {
        0
    }
}

/// Taking back a like restores the count it was given to (a count that is
/// not negative).
pub proof fn lemma_unlike_undoes_like(count: int)
    requires
        0 <= count,
    ensures
        unliked(liked(count)) == count,
{
}

} // verus!
