//! The user table and its CRUD operations, modelled as a sequence of
//! rows ordered newest-first.
//!
//! The store keeps the invariants the backing table guarantees: ids are
//! unique and server-assigned, emails are unique, and rows are ordered
//! by creation instant, newest first.  Every operation is specified
//! against the sequence-of-rows view.

use vstd::prelude::*;

use crate::model::CreateModel;
use crate::model::CreateUserRequest;
use crate::model::UpdateModel;
use crate::model::UpdateUserRequest;
use crate::model::User;
use crate::model::UserModel;
use crate::timefmt::timestamp_in_range;

verus! {

/// A persistence failure, as the store's callers see it.
#[derive(Debug)]
pub enum StoreError {
    /// A uniqueness constraint was violated.
    UniqueViolation,
    /// Any other persistence failure, with its raw text.
    Failure(String),
}

/// A row the store is willing to hold: a positive id and a creation
/// instant the service can render.
pub open spec fn user_ok(u: UserModel) -> bool {
    1 <= u.id <= 0x7fff_ffff && timestamp_in_range(u.created_at)
}

/// Whether some row of `s` has the id `id`.
pub open spec fn has_user_id(s: Seq<UserModel>, id: int) -> bool {
    exists|i: int| 0 <= i < s.len() && #[trigger] s[i].id == id
}

/// The position of the row with id `id`.
pub open spec fn user_index(s: Seq<UserModel>, id: int) -> int {
    choose|i: int| 0 <= i < s.len() && #[trigger] s[i].id == id
}

/// The row with id `id`.
pub open spec fn user_with_id(s: Seq<UserModel>, id: int) -> UserModel {
    s[user_index(s, id)]
}

/// Whether some row of `s` has the email `email`.
pub open spec fn has_user_email(s: Seq<UserModel>, email: Seq<char>) -> bool {
    exists|i: int| 0 <= i < s.len() && #[trigger] s[i].email == email
}

/// Whether a row other than the one with id `id` holds the email
/// `email`.
pub open spec fn email_taken_by_other(s: Seq<UserModel>, id: int, email: Seq<char>) -> bool {
    exists|i: int| 0 <= i < s.len() && #[trigger] s[i].id != id && s[i].email == email
}

/// Whether an update payload asks for an email some other row already
/// holds.
pub open spec fn update_email_conflict(s: Seq<UserModel>, id: int, r: UpdateModel) -> bool {
    r.email matches Some(e) && email_taken_by_other(s, id, e)
}

/// Every row is acceptable.
pub open spec fn users_ok(s: Seq<UserModel>) -> bool {
    forall|i: int| 0 <= i < s.len() ==> user_ok(#[trigger] s[i])
}

/// No two rows share an id.
pub open spec fn unique_ids(s: Seq<UserModel>) -> bool {
    forall|i: int, j: int| 0 <= i < j < s.len() ==> s[i].id != s[j].id
}

/// No two rows share an email.
pub open spec fn unique_emails(s: Seq<UserModel>) -> bool {
    forall|i: int, j: int| 0 <= i < j < s.len() ==> s[i].email != s[j].email
}

/// Rows are ordered by creation instant, newest first; rows with equal
/// instants keep their relative order of insertion.
pub open spec fn newest_first(s: Seq<UserModel>) -> bool {
    forall|i: int, j: int| 0 <= i < j < s.len() ==> s[i].created_at >= s[j].created_at
}

/// The well-formedness of a table of rows.
pub open spec fn wf_table(s: Seq<UserModel>) -> bool {
    users_ok(s) && unique_ids(s) && unique_emails(s) && newest_first(s)
}

/// The row a creation payload becomes.
pub open spec fn new_user_model(id: int, req: CreateModel, created_at: int) -> UserModel {
    UserModel { id, name: req.name, email: req.email, active: true, created_at }
}

/// The row an update payload turns `u` into: exactly the present fields
/// change, id and creation instant never do.
pub open spec fn apply_update(u: UserModel, r: UpdateModel) -> UserModel {
    UserModel {
        id: u.id,
        name: match r.name {
            Some(n) => n,
            None => u.name,
        },
        email: match r.email {
            Some(e) => e,
            None => u.email,
        },
        active: match r.active {
            Some(a) => a,
            None => u.active,
        },
        created_at: u.created_at,
    }
}

/// Whether an update payload leaves every field alone.
pub open spec fn empty_update(r: UpdateModel) -> bool {
    r.name is None && r.email is None && r.active is None
}

/// Whether `k` is where a row created at instant `t` belongs: after
/// every row at least as new, before the first strictly older one.
pub open spec fn is_insert_position(s: Seq<UserModel>, t: int, k: int) -> bool {
    &&& 0 <= k <= s.len()
    &&& forall|j: int| 0 <= j < k ==> s[j].created_at >= t
    &&& k < s.len() ==> s[k].created_at < t
}

/// The user table: rows ordered newest-first, and the id the next
/// created row receives.
pub struct UserStore {
    pub users: Vec<User>,
    pub next_id: i32,
}

impl View for UserStore {
    type V = Seq<UserModel>;

    open spec fn view(&self) -> Seq<UserModel> {
        self.users@.map_values(|u: User| u@)
    }
}

impl UserStore {
    /// Well-formedness: the table invariants hold and every id sits
    /// below the next one to be assigned.
    pub open spec fn wf(&self) -> bool {
        &&& wf_table(self@)
        &&& 1 <= self.next_id
        &&& forall|i: int| 0 <= i < self@.len() ==> #[trigger] self@[i].id < self.next_id
    }

    /// An empty table; ids start at 1.
    pub fn new() -> (r: UserStore)
        ensures
            r.wf(),
            r@ == Seq::<UserModel>::empty(),
            r.next_id == 1,
    {
        let r = UserStore { users: Vec::new(), next_id: 1 };
        proof {
            assert(r@ =~= Seq::<UserModel>::empty());
        }
        r
    }

    /// Fetch the row with the given id, or nothing when no row has it.
    pub fn get_user_by_id(&self, id: i32) -> (r: Option<User>)
        requires
            self.wf(),
        ensures
            match r {
                Some(u) => has_user_id(self@, id as int) && u@ == user_with_id(self@, id as int),
                None => !has_user_id(self@, id as int),
            },
    {
        let n = self.users.len();
        let mut i: usize = 0;
        while i < n
            invariant
                0 <= i <= n,
                n == self@.len(),
                self.wf(),
                forall|j: int| 0 <= j < i ==> #[trigger] self@[j].id != id as int,
            decreases n - i,
        {
            if self.users[i].id == id {
                let u = self.users[i].clone();
                proof {
                    lemma_user_with_id_at(self@, id as int, i as int);
                }
                return Some(u);
            }
            i = i + 1;
        }
        None
    }

    /// Create a row from a payload: the next id is assigned, `active`
    /// starts true, and the row takes its place in newest-first order.
    /// A payload whose email some row already holds is refused and the
    /// table is left unchanged.
    pub fn create_user(&mut self, req: &CreateUserRequest, now_micros: i64) -> (r: Result<
        User,
        StoreError,
    >)
        requires
            old(self).wf(),
            old(self).next_id < 0x7fff_ffff,
            timestamp_in_range(now_micros as int),
        ensures
            final(self).wf(),
            has_user_email(old(self)@, req.email@) ==> (r matches Err(e) && e is UniqueViolation
                && *final(self) == *old(self)),
            !has_user_email(old(self)@, req.email@) ==> (r matches Ok(u) && u@ == new_user_model(
                old(self).next_id as int,
                req@,
                now_micros as int,
            ) && final(self).next_id == old(self).next_id + 1 && (exists|k: int|
                is_insert_position(old(self)@, now_micros as int, k) && final(self)@ == old(
                    self,
                )@.insert(k, u@))),
    {
        let n = self.users.len();
        let mut i: usize = 0;
        while i < n
            invariant
                0 <= i <= n,
                n == self@.len(),
                old(self).wf(),
                *self == *old(self),
                forall|j: int| 0 <= j < i ==> #[trigger] self@[j].email != req.email@,
            decreases n - i,
        {
            if self.users[i].email == req.email {
                proof {
                    assert(self@[i as int].email == req.email@);
                }
                return Err(StoreError::UniqueViolation);
            }
            i = i + 1;
        }
        assert(!has_user_email(self@, req.email@));
        let mut k: usize = 0;
        while k < n && self.users[k].created_at >= now_micros
            invariant
                0 <= k <= n,
                n == self@.len(),
                old(self).wf(),
                *self == *old(self),
                forall|j: int| 0 <= j < k ==> #[trigger] self@[j].created_at >= now_micros as int,
            decreases n - k,
        {
            k = k + 1;
        }
        assert(is_insert_position(self@, now_micros as int, k as int));
        let user = User {
            id: self.next_id,
            name: req.name.clone(),
            email: req.email.clone(),
            active: true,
            created_at: now_micros,
        };
        let result = user.clone();
        self.users.insert(k, user);
        self.next_id = self.next_id + 1;
        proof {
            let ghost prev = old(self)@;
            let ghost m = new_user_model(old(self).next_id as int, req@, now_micros as int);
            assert(self@ =~= prev.insert(k as int, m));
            lemma_insert_keeps_wf(prev, m, k as int, now_micros as int, old(self).next_id as int);
            assert forall|p: int| 0 <= p < self@.len() implies #[trigger] self@[p].id
                < self.next_id by {
                if p < k {
                    assert(self@[p] == prev[p]);
                } else if p > k {
                    assert(self@[p] == prev[p - 1]);
                }
            }
            assert(is_insert_position(prev, now_micros as int, k as int) && self@ == prev.insert(
                k as int,
                result@,
            ));
        }
        Ok(result)
    }

    /// The position of the row with the given id, if any row has it.
    fn index_of_id(users: &Vec<User>, id: i32) -> (r: Option<usize>)
        ensures
            match r {
                Some(i) => i < users@.len() && users@[i as int]@.id == id as int,
                None => forall|j: int| 0 <= j < users@.len() ==> #[trigger] users@[j]@.id != id as int,
            },
    {
        let n = users.len();
        let mut i: usize = 0;
        while i < n
            invariant
                0 <= i <= n,
                n == users@.len(),
                forall|j: int| 0 <= j < i ==> #[trigger] users@[j]@.id != id as int,
            decreases n - i,
        {
            if users[i].id == id {
                return Some(i);
            }
            i = i + 1;
        }
        None
    }

    /// Update the row with the given id, applying exactly the fields the
    /// payload carries.  When no row has the id, nothing changes and
    /// nothing is returned; when the payload asks for an email some
    /// other row holds, the update is refused and nothing changes.
    pub fn update_user(&mut self, id: i32, req: &UpdateUserRequest) -> (r: Result<
        Option<User>,
        StoreError,
    >)
        requires
            old(self).wf(),
        ensures
            final(self).wf(),
            final(self).next_id == old(self).next_id,
            !has_user_id(old(self)@, id as int) ==> (r matches Ok(o) && o is None && *final(self)
                == *old(self)),
            has_user_id(old(self)@, id as int) && update_email_conflict(
                old(self)@,
                id as int,
                req@,
            ) ==> (r matches Err(e) && e is UniqueViolation && *final(self) == *old(self)),
            has_user_id(old(self)@, id as int) && !update_email_conflict(
                old(self)@,
                id as int,
                req@,
            ) ==> (r matches Ok(o) && o matches Some(u) && u@ == apply_update(
                user_with_id(old(self)@, id as int),
                req@,
            ) && final(self)@ == old(self)@.update(user_index(old(self)@, id as int), u@)),
    {
        let n = self.users.len();
        let idx = match Self::index_of_id(&self.users, id) {
            Some(i) => i,
            None => {
                return Ok(None);
            },
        };
        proof {
            lemma_user_with_id_at(self@, id as int, idx as int);
            assert forall|m: int| 0 <= m < self@.len() && m != idx implies #[trigger] self@[m].id
                != id as int by {
                if m < idx {
                    assert(self@[m].id != self@[idx as int].id);
                } else {
                    assert(self@[idx as int].id != self@[m].id);
                }
            }
        }
        match &req.email {
            Some(e) => {
                let mut j: usize = 0;
                while j < n
                    invariant
                        0 <= j <= n,
                        n == self@.len(),
                        old(self).wf(),
                        *self == *old(self),
                        idx < n,
                        self@[idx as int].id == id as int,
                        req.email matches Some(x) && x@ == e@,
                        forall|m: int|
                            0 <= m < j && #[trigger] self@[m].id != id as int ==> self@[m].email
                                != e@,
                    decreases n - j,
                {
                    if self.users[j].id != id && self.users[j].email == *e {
                        proof {
                            assert(self@[j as int].id != id as int && self@[j as int].email == e@);
                        }
                        return Err(StoreError::UniqueViolation);
                    }
                    j = j + 1;
                }
                proof {
                    assert(!email_taken_by_other(self@, id as int, e@));
                }
            },
            None => {},
        }
        let updated = User {
            id: self.users[idx].id,
            name: match &req.name {
                Some(nm) => nm.clone(),
                None => self.users[idx].name.clone(),
            },
            email: match &req.email {
                Some(em) => em.clone(),
                None => self.users[idx].email.clone(),
            },
            active: match req.active {
                Some(a) => a,
                None => self.users[idx].active,
            },
            created_at: self.users[idx].created_at,
        };
        let result = updated.clone();
        self.users.set(idx, updated);
        proof {
            let prev = old(self)@;
            let m = apply_update(prev[idx as int], req@);
            assert(result@ == m);
            assert(self@ =~= prev.update(idx as int, m));
            assert forall|p: int, q: int| 0 <= p < q < self@.len() implies self@[p].id
                != self@[q].id && self@[p].email != self@[q].email && self@[p].created_at
                >= self@[q].created_at by {
                assert(self@[p].id == prev[p].id && self@[q].id == prev[q].id);
                assert(self@[p].created_at == prev[p].created_at && self@[q].created_at
                    == prev[q].created_at);
                if p != idx && q != idx {
                    assert(self@[p].email == prev[p].email && self@[q].email == prev[q].email);
                } else if req.email is None {
                    assert(self@[p].email == prev[p].email && self@[q].email == prev[q].email);
                } else {
                    let other: int = if p == idx {
                        q
                    } else {
                        p
                    };
                    assert(prev[other].id != id as int);
                    assert(prev[other].email != req.email->Some_0@);
                }
            }
            assert forall|p: int| 0 <= p < self@.len() implies user_ok(#[trigger] self@[p])
                && self@[p].id < self.next_id by {
                assert(prev[p].id == self@[p].id && prev[p].created_at == self@[p].created_at);
            }
        }
        Ok(Some(result))
    }

    /// Remove the row with the given id; true exactly when a row was
    /// removed.  The other rows keep their order.
    pub fn delete_user(&mut self, id: i32) -> (r: bool)
        requires
            old(self).wf(),
        ensures
            final(self).wf(),
            final(self).next_id == old(self).next_id,
            r == has_user_id(old(self)@, id as int),
            r ==> final(self)@ == old(self)@.remove(user_index(old(self)@, id as int)),
            !r ==> *final(self) == *old(self),
    {
        match Self::index_of_id(&self.users, id) {
            Some(i) => {
                proof {
                    lemma_user_with_id_at(self@, id as int, i as int);
                }
                self.users.remove(i);
                proof {
                    let prev = old(self)@;
                    prev.remove_ensures(i as int);
                    assert(self@ =~= prev.remove(i as int));
                    assert forall|p: int, q: int| 0 <= p < q < self@.len() implies self@[p].id
                        != self@[q].id && self@[p].email != self@[q].email && self@[p].created_at
                        >= self@[q].created_at by {
                        let p0: int = if p < i {
                            p
                        } else {
                            p + 1
                        };
                        let q0: int = if q < i {
                            q
                        } else {
                            q + 1
                        };
                        assert(self@[p] == prev[p0] && self@[q] == prev[q0]);
                    }
                    assert forall|p: int| 0 <= p < self@.len() implies user_ok(#[trigger] self@[p])
                        && self@[p].id < self.next_id by {
                        let p0: int = if p < i {
                            p
                        } else {
                            p + 1
                        };
                        assert(self@[p] == prev[p0]);
                    }
                }
                true
            },
            None => false,
        }
    }

    /// All rows, newest first.
    pub fn list_users(&self) -> (r: Vec<User>)
        requires
            self.wf(),
        ensures
            r@.map_values(|u: User| u@) == self@,
    {
        let n = self.users.len();
        let mut out: Vec<User> = Vec::new();
        let mut i: usize = 0;
        while i < n
            invariant
                0 <= i <= n,
                n == self@.len(),
                out@.len() == i,
                forall|j: int| 0 <= j < i ==> #[trigger] out@[j]@ == self@[j],
            decreases n - i,
        {
            out.push(self.users[i].clone());
            i = i + 1;
        }
        proof {
            assert(out@.map_values(|u: User| u@) =~= self@);
        }
        out
    }
}

/// Law: an update changes exactly the fields its payload carries.  Each
/// present field takes the payload's value, each absent field keeps the
/// stored one, and id and creation instant never change.
pub proof fn lemma_update_changes_exactly_present_fields(u: UserModel, r: UpdateModel)
    ensures
        apply_update(u, r).id == u.id,
        apply_update(u, r).created_at == u.created_at,
        r.name matches Some(n) ==> apply_update(u, r).name == n,
        r.name is None ==> apply_update(u, r).name == u.name,
        r.email matches Some(e) ==> apply_update(u, r).email == e,
        r.email is None ==> apply_update(u, r).email == u.email,
        r.active matches Some(a) ==> apply_update(u, r).active == a,
        r.active is None ==> apply_update(u, r).active == u.active,
{
}

/// Law: after a row is updated, reading its id back yields exactly the
/// updated row, and every other row reads back unchanged.
pub proof fn lemma_update_reads_back(s: Seq<UserModel>, id: int, r: UpdateModel)
    requires
        unique_ids(s),
        has_user_id(s, id),
    ensures
        ({
            let i = user_index(s, id);
            let s2 = s.update(i, apply_update(s[i], r));
            &&& has_user_id(s2, id)
            &&& user_with_id(s2, id) == apply_update(user_with_id(s, id), r)
            &&& forall|oid: int|
                oid != id && has_user_id(s, oid) ==> has_user_id(s2, oid) && user_with_id(s2, oid)
                    == user_with_id(s, oid)
        }),
{
    let i = user_index(s, id);
    let s2 = s.update(i, apply_update(s[i], r));
    assert(0 <= i < s.len() && s[i].id == id);
    assert forall|p: int, q: int| 0 <= p < q < s2.len() implies s2[p].id != s2[q].id by {
        assert(s2[p].id == s[p].id && s2[q].id == s[q].id);
    }
    lemma_user_with_id_at(s2, id, i);
    assert forall|oid: int| oid != id && has_user_id(s, oid) implies has_user_id(s2, oid)
        && user_with_id(s2, oid) == user_with_id(s, oid) by {
        let j = user_index(s, oid);
        assert(0 <= j < s.len() && s[j].id == oid);
        lemma_user_with_id_at(s, oid, j);
        assert(s2[j] == s[j]);
        lemma_user_with_id_at(s2, oid, j);
    }
}

/// Law: the empty update is a no-op.  Applying it to a row returns the
/// row as it was, and the table is left exactly as it stood.
pub proof fn lemma_empty_update_is_noop(s: Seq<UserModel>, id: int, r: UpdateModel)
    requires
        empty_update(r),
        unique_ids(s),
        has_user_id(s, id),
    ensures
        apply_update(user_with_id(s, id), r) == user_with_id(s, id),
        s.update(user_index(s, id), apply_update(user_with_id(s, id), r)) == s,
{
    let i = user_index(s, id);
    assert(0 <= i < s.len() && s[i].id == id);
    assert(s.update(i, apply_update(s[i], r)) =~= s);
}

/// Law: a row created with a fresh id is read back with all its fields
/// exactly as they were written.
pub proof fn lemma_create_reads_back(s: Seq<UserModel>, m: UserModel, k: int)
    requires
        unique_ids(s),
        !has_user_id(s, m.id),
        0 <= k <= s.len(),
    ensures
        has_user_id(s.insert(k, m), m.id),
        user_with_id(s.insert(k, m), m.id) == m,
{
    let s2 = s.insert(k, m);
    s.insert_ensures(k, m);
    assert forall|p: int, q: int| 0 <= p < q < s2.len() implies s2[p].id != s2[q].id by {
        if q < k {
            assert(s2[p] == s[p] && s2[q] == s[q]);
        } else if q == k {
            assert(s2[p] == s[p]);
            assert(s[p].id != m.id);
        } else if p < k {
            assert(s2[p] == s[p] && s2[q] == s[q - 1]);
        } else if p == k {
            assert(s2[q] == s[q - 1]);
            assert(s[q - 1].id != m.id);
        } else {
            assert(s2[p] == s[p - 1] && s2[q] == s[q - 1]);
        }
    }
    lemma_user_with_id_at(s2, m.id, k);
}

/// Law: a deletion removes the id for good.  Once the row with an id is
/// removed, no row with that id remains, so a second deletion of the
/// same id finds nothing.
pub proof fn lemma_delete_is_final(s: Seq<UserModel>, id: int)
    requires
        unique_ids(s),
        has_user_id(s, id),
    ensures
        !has_user_id(s.remove(user_index(s, id)), id),
{
    let i = user_index(s, id);
    assert(0 <= i < s.len() && s[i].id == id);
    let s2 = s.remove(i);
    s.remove_ensures(i);
    assert forall|p: int| 0 <= p < s2.len() implies #[trigger] s2[p].id != id by {
        if p < i {
            assert(s2[p] == s[p]);
            if p < i {
                assert(s[p].id != s[i].id);
            }
        } else {
            assert(s2[p] == s[p + 1]);
            assert(s[i].id != s[p + 1].id);
        }
    }
}

/// Law: a row newer than everything in the table is inserted at the
/// front, so a listing returns the most recently created user first.
pub proof fn lemma_newest_row_goes_first(s: Seq<UserModel>, t: int, k: int)
    requires
        forall|i: int| 0 <= i < s.len() ==> #[trigger] s[i].created_at < t,
        is_insert_position(s, t, k),
    ensures
        k == 0,
{
    if k > 0 {
        assert(s[0].created_at >= t);
        assert(s[0].created_at < t);
    }
}

/// Inserting a fresh, acceptable row at its ordered position keeps the
/// table well formed.
proof fn lemma_insert_keeps_wf(s: Seq<UserModel>, m: UserModel, k: int, t: int, id: int)
    requires
        wf_table(s),
        is_insert_position(s, t, k),
        m.created_at == t,
        m.id == id,
        user_ok(m),
        forall|i: int| 0 <= i < s.len() ==> #[trigger] s[i].id < id,
        !has_user_email(s, m.email),
    ensures
        wf_table(s.insert(k, m)),
{
    let r = s.insert(k, m);
    s.insert_ensures(k, m);
    assert forall|p: int, q: int| 0 <= p < q < r.len() implies r[p].id != r[q].id && r[p].email
        != r[q].email && r[p].created_at >= r[q].created_at by {
        if q < k {
            assert(r[p] == s[p] && r[q] == s[q]);
        } else if q == k {
            assert(r[p] == s[p] && r[q] == m);
            assert(s[p].id < id);
            assert(s[p].email != m.email);
            assert(s[p].created_at >= t);
        } else if p < k {
            assert(r[p] == s[p] && r[q] == s[q - 1]);
            assert(k <= q - 1 < s.len());
            assert(p < q - 1);
        } else if p == k {
            assert(r[p] == m && r[q] == s[q - 1]);
            assert(s[q - 1].id < id);
            assert(s[q - 1].email != m.email);
            assert(k <= q - 1 < s.len());
            assert(s[k].created_at < t);
            if k < q - 1 {
                assert(s[k].created_at >= s[q - 1].created_at);
            }
        } else {
            assert(r[p] == s[p - 1] && r[q] == s[q - 1]);
        }
    }
    assert forall|p: int| 0 <= p < r.len() implies user_ok(#[trigger] r[p]) by {
        if p < k {
            assert(r[p] == s[p]);
        } else if p == k {
            assert(r[p] == m);
        } else {
            assert(r[p] == s[p - 1]);
        }
    }
}

/// In a table with unique ids, a row found at some index is the row the
/// table holds for that id.
pub proof fn lemma_user_with_id_at(s: Seq<UserModel>, id: int, i: int)
    requires
        unique_ids(s),
        0 <= i < s.len(),
        s[i].id == id,
    ensures
        has_user_id(s, id),
        user_index(s, id) == i,
        user_with_id(s, id) == s[i],
{
    assert(has_user_id(s, id));
    let j = user_index(s, id);
    assert(0 <= j < s.len() && s[j].id == id);
    if i != j {
        if i < j {
            assert(s[i].id != s[j].id);
        } else {
            assert(s[j].id != s[i].id);
        }
    }
}

} // verus!
