use vstd::prelude::*;

use std::path::PathBuf;

verus! {

#[verifier::external_type_specification]
#[verifier::external_body]
pub struct ExPathBuf(PathBuf);

/// One configured tenant of the bridge.
pub struct UserEntry {
    /// The local account this entry belongs to; unique in a user list.
    pub system_user: String,
    pub enabled: bool,
    /// The platform sender id, bound at most once.
    pub telegram_user_id: Option<u64>,
    /// Whether the first sender that matches by username gets its id bound.
    pub promote_on_first_auth: bool,
    /// Directory that holds this tenant's `in.pipe` and `out.pipe`.
    pub pipe_dir: String,
    /// Usernames let through before promotion, compared without case.
    pub allowed_usernames: Vec<String>,
    pub first_seen_at: Option<String>,
    pub last_seen_at: Option<String>,
}

/// The user list, in its configured order.
pub struct UsersConfig {
    pub users: Vec<UserEntry>,
}

/// Entries are enabled unless the configuration says otherwise.
pub fn default_true() -> (r: bool)
    ensures
        r,
{
    true
}

/// What `str::to_lowercase` makes of a string.
pub uninterp spec fn lower_of(s: Seq<char>) -> Seq<char>;

/// Relies on `str::to_lowercase`: the lowercase form of `s`, which depends on
/// the characters of `s` alone.
#[verifier::external_body]
fn lowercase(s: &str) -> (r: String)
    ensures
        r@ == lower_of(s@),
{
    s.to_lowercase()
}

/// The entry is enabled and bound to sender `id`.
pub open spec fn id_hit(e: UserEntry, id: u64) -> bool {
    e.enabled && e.telegram_user_id == Some(id)
}

/// The entry is enabled, awaits promotion, and lists a username whose
/// lowercase form is `lname`.
pub open spec fn name_hit(e: UserEntry, lname: Seq<char>) -> bool {
    &&& e.enabled
    &&& e.promote_on_first_auth
    &&& exists|k: int|
        0 <= k < e.allowed_usernames@.len() && lower_of(#[trigger] e.allowed_usernames@[k]@)
            == lname
}

/// The first index at or after `i` of an entry bound to sender `id`.
pub open spec fn first_id_from(users: Seq<UserEntry>, id: u64, i: int) -> Option<int>
    decreases users.len() - i,
{
    if i < 0 || i >= users.len() {
        None
    } else if id_hit(users[i], id) {
        Some(i)
    } else {
        first_id_from(users, id, i + 1)
    }
}

/// The first index at or after `i` of an entry that lets `lname` through by
/// username.
pub open spec fn first_name_from(users: Seq<UserEntry>, lname: Seq<char>, i: int) -> Option<int>
    decreases users.len() - i,
{
    if i < 0 || i >= users.len() {
        None
    } else if name_hit(users[i], lname) {
        Some(i)
    } else {
        first_name_from(users, lname, i + 1)
    }
}

/// The entry that lets a sender through: the first enabled entry bound to its
/// id; failing that, when a username is given, the first enabled entry
/// awaiting promotion that lists the username, compared without case.
pub open spec fn authorized(users: Seq<UserEntry>, id: u64, username: Option<Seq<char>>) -> Option<
    int,
> {
    match first_id_from(users, id, 0) {
        Some(i) => Some(i),
        None => match username {
            Some(n) => first_name_from(users, lower_of(n), 0),
            None => None,
        },
    }
}

pub open spec fn opt_view(o: Option<&str>) -> Option<Seq<char>> {
    match o {
        Some(s) => Some(s@),
        None => None,
    }
}

/// `n` is entry `e` after promotion of sender `id`: the id bound, the
/// usernames cleared, no further promotion pending, all else kept.
pub open spec fn is_promotion(n: UserEntry, e: UserEntry, id: u64) -> bool {
    &&& n.telegram_user_id == Some(id)
    &&& n.allowed_usernames@.len() == 0
    &&& !n.promote_on_first_auth
    &&& n.system_user == e.system_user
    &&& n.enabled == e.enabled
    &&& n.pipe_dir == e.pipe_dir
    &&& n.first_seen_at == e.first_seen_at
    &&& n.last_seen_at == e.last_seen_at
}

proof fn lemma_first_id(users: Seq<UserEntry>, id: u64, i: int)
    requires
        0 <= i,
    ensures
        first_id_from(users, id, i) matches Some(j) ==> i <= j < users.len() && id_hit(
            users[j],
            id,
        ) && forall|k: int| i <= k < j ==> !id_hit(#[trigger] users[k], id),
        first_id_from(users, id, i) is None ==> forall|k: int|
            i <= k < users.len() ==> !id_hit(#[trigger] users[k], id),
    decreases users.len() - i,
{
    if i < users.len() && !id_hit(users[i], id) {
        lemma_first_id(users, id, i + 1);
    }
}

proof fn lemma_first_name(users: Seq<UserEntry>, lname: Seq<char>, i: int)
    requires
        0 <= i,
    ensures
        first_name_from(users, lname, i) matches Some(j) ==> i <= j < users.len() && name_hit(
            users[j],
            lname,
        ),
    decreases users.len() - i,
{
    if i < users.len() && !name_hit(users[i], lname) {
        lemma_first_name(users, lname, i + 1);
    }
}

/// The authorization rules hold for every user list and sender: a disabled
/// entry never lets a sender through; a sender bound to an enabled entry is
/// matched to the first such entry, whatever its username; and a match that is
/// not by id comes from an enabled entry awaiting promotion that lists the
/// sender's username up to case.
pub proof fn lemma_authorized(users: Seq<UserEntry>, id: u64, username: Option<Seq<char>>)
    ensures
        authorized(users, id, username) matches Some(i) ==> 0 <= i < users.len()
            && users[i].enabled,
        forall|j: int|
            0 <= j < users.len() && #[trigger] id_hit(users[j], id) ==> (authorized(
                users,
                id,
                username,
            ) matches Some(i) && i <= j && id_hit(users[i], id)),
        authorized(users, id, username) matches Some(i) ==> id_hit(users[i], id) || (
        username matches Some(n) && users[i].promote_on_first_auth && name_hit(
            users[i],
            lower_of(n),
        )),
        username is None ==> (authorized(users, id, username) matches Some(i) ==> id_hit(
            users[i],
            id,
        )),
{
    lemma_first_id(users, id, 0);
    if let Some(n) = username {
        lemma_first_name(users, lower_of(n), 0);
    }
}

/// Decides which senders are let through, and binds a sender's id on first
/// contact.
pub struct AuthService {
    pub config: UsersConfig,
    pub config_path: PathBuf,
}

impl AuthService {
    pub fn new(config: UsersConfig, config_path: PathBuf) -> (r: Self)
        ensures
            r.config == config,
            r.config_path == config_path,
    {
        AuthService { config, config_path }
    }

    /// The index of the entry that lets the sender through, if any.
    pub fn check(&self, telegram_user_id: u64, telegram_username: Option<&str>) -> (r: Option<
        usize,
    >)
        ensures
            match r {
                Some(i) => authorized(
                    self.config.users@,
                    telegram_user_id,
                    opt_view(telegram_username),
                ) == Some(i as int),
                None => authorized(
                    self.config.users@,
                    telegram_user_id,
                    opt_view(telegram_username),
                ) is None,
            },
    {
        let ghost users = self.config.users@;
        let n = self.config.users.len();
        let mut i: usize = 0;
        while i < n
            invariant
                n == users.len(),
                users == self.config.users@,
                i <= n,
                first_id_from(users, telegram_user_id, 0) == first_id_from(users, telegram_user_id, i as int),
            decreases n - i,
        {
            let e = &self.config.users[i];
            if e.enabled && e.telegram_user_id == Some(telegram_user_id) {
                assert(id_hit(users[i as int], telegram_user_id));
                return Some(i);
            }
            i = i + 1;
        }
        match telegram_username {
            None => None,
            Some(name) => {
                let lname = lowercase(name);
                let mut i: usize = 0;
                while i < n
                    invariant
                        n == users.len(),
                        users == self.config.users@,
                        i <= n,
                        lname@ == lower_of(name@),
                        first_name_from(users, lname@, 0) == first_name_from(users, lname@, i as int),
                        first_id_from(users, telegram_user_id, 0) is None,
                        opt_view(telegram_username) == Some(name@),
                    decreases n - i,
                {
                    let e = &self.config.users[i];
                    if e.enabled && e.promote_on_first_auth {
                        let m = e.allowed_usernames.len();
                        let mut k: usize = 0;
                        while k < m
                            invariant
                                m == e.allowed_usernames@.len(),
                                k <= m,
                                i < n,
                                n == users.len(),
                                users == self.config.users@,
                                *e == users[i as int],
                                e.enabled && e.promote_on_first_auth,
                                first_id_from(users, telegram_user_id, 0) is None,
                                opt_view(telegram_username) == Some(name@),
                        opt_view(telegram_username) == Some(name@),
                                first_name_from(users, lname@, 0) == first_name_from(
                                    users,
                                    lname@,
                                    i as int,
                                ),
                                lname@ == lower_of(name@),
                                forall|j: int|
                                    0 <= j < k ==> lower_of(
                                        #[trigger] e.allowed_usernames@[j]@,
                                    ) != lname@,
                            decreases m - k,
                        {
                            let l = lowercase(e.allowed_usernames[k].as_str());
                            if l == lname {
                                assert(l@ == lname@);
                                assert(l@ == lower_of(e.allowed_usernames@[k as int]@));
                                assert(*e == users[i as int]);
                                assert(lower_of(users[i as int].allowed_usernames@[k as int]@)
                                    == lname@);
                                assert(name_hit(users[i as int], lname@));
                                assert(first_name_from(users, lname@, i as int) == Some(i as int));
                                assert(opt_view(telegram_username) == Some(name@));
                                assert(authorized(users, telegram_user_id, Some(name@)) == Some(
                                    i as int,
                                ));
                                return Some(i);
                            }
                            k = k + 1;
                        }
                        assert(!name_hit(users[i as int], lname@));
                    }
                    i = i + 1;
                }
                None
            },
        }
    }

    /// Whether no user is configured, in which case callers let every sender
    /// through.
    pub fn is_empty(&self) -> (r: bool)
        ensures
            r == (self.config.users@.len() == 0),
    {
        self.config.users.len() == 0
    }

    pub fn user_count(&self) -> (r: usize)
        ensures
            r == self.config.users@.len(),
    {
        self.config.users.len()
    }

    /// The entry at `index`, if there is one.
    pub fn get_user(&self, index: usize) -> (r: Option<&UserEntry>)
        ensures
            index < self.config.users@.len() ==> r == Some(&self.config.users@[index as int]),
            index >= self.config.users@.len() ==> r is None,
    {
        if index < self.config.users.len() {
            Some(&self.config.users[index])
        } else {
            None
        }
    }

    /// Binds sender `telegram_user_id` to the entry at `index`, clears its
    /// usernames and its pending promotion. Returns whether an entry was
    /// changed, in which case the caller saves the list.
    pub fn promote(&mut self, index: usize, telegram_user_id: u64) -> (changed: bool)
        ensures
            changed == (index < old(self).config.users@.len()),
            final(self).config.users@.len() == old(self).config.users@.len(),
            changed ==> is_promotion(
                final(self).config.users@[index as int],
                old(self).config.users@[index as int],
                telegram_user_id,
            ),
            forall|j: int|
                0 <= j < old(self).config.users@.len() && j != index
                    ==> #[trigger] final(self).config.users@[j] == old(self).config.users@[j],
            !changed ==> final(self).config.users@ == old(self).config.users@,
            final(self).config_path == old(self).config_path,
    {
        if index < self.config.users.len() {
            let mut e = self.config.users.remove(index);
            e.telegram_user_id = Some(telegram_user_id);
            e.allowed_usernames = Vec::new();
            e.promote_on_first_auth = false;
            self.config.users.insert(index, e);
            true
        } else {
            false
        }
    }
}

} // verus!
