use vstd::prelude::*;
use crate::claims::{Claims, ClaimsView, Purpose, TokenError, SUBJECT_LEN, claims_result_view, issued_claims};
use crate::confirmation::{complete_confirmation, confirmation_outcome, start_confirmation};
use crate::store::InvalidationStore;

verus! {

/// What a registration form carries.
pub struct CreateNewUser {
    pub email: String,
    pub password: String,
    pub first_name: String,
    pub last_name: String,
}

/// A stored user record. `password` is the stored credential blob.
pub struct UserRecord {
    pub id: Vec<u8>,
    pub email: String,
    pub password: String,
    pub first_name: String,
    pub last_name: String,
    pub is_active: bool,
}

pub struct NewUserView {
    pub email: Seq<char>,
    pub password: Seq<char>,
    pub first_name: Seq<char>,
    pub last_name: Seq<char>,
}

pub struct UserView {
    pub id: Seq<u8>,
    pub email: Seq<char>,
    pub password: Seq<char>,
    pub first_name: Seq<char>,
    pub last_name: Seq<char>,
    pub is_active: bool,
}

impl View for CreateNewUser {
    type V = NewUserView;

    open spec fn view(&self) -> NewUserView {
        NewUserView {
            email: self.email@,
            password: self.password@,
            first_name: self.first_name@,
            last_name: self.last_name@,
        }
    }
}

impl View for UserRecord {
    type V = UserView;

    open spec fn view(&self) -> UserView {
        UserView {
            id: self.id@,
            email: self.email@,
            password: self.password@,
            first_name: self.first_name@,
            last_name: self.last_name@,
            is_active: self.is_active,
        }
    }
}

/// Why a registration did not go through.
#[derive(Clone, Copy, Debug, PartialEq, Eq, Structural)]
pub enum RegisterError {
    /// The user record could not be created; nothing else was attempted.
    UserCreationFailed,
    /// The confirmation email could not be sent, and the policy makes
    /// that fatal. The user record and its token remain.
    NotificationFailed,
}

/// Why a confirmation did not go through.
#[derive(Clone, Copy, Debug, PartialEq, Eq, Structural)]
pub enum ConfirmError {
    /// The token was refused; no user record was touched.
    Token(TokenError),
    /// The token was consumed but its user could not be activated; the
    /// token is burned and the user stays inactive.
    ActivationPersist,
}

/// What a failed confirmation email means for the registration.
#[derive(Clone, Copy, Debug, PartialEq, Eq, Structural)]
pub enum EmailPolicy {
    /// The registration fails with the email.
    Fatal,
    /// The registration stands; the email may be sent again later.
    BestEffort,
}

/// The record created for a new registration: inactive.
pub open spec fn pending_user(u: NewUserView, id: Seq<u8>) -> UserView {
    UserView {
        id,
        email: u.email,
        password: u.password,
        first_name: u.first_name,
        last_name: u.last_name,
        is_active: false,
    }
}

/// The same record, active.
pub open spec fn activated(u: UserView) -> UserView {
    UserView { is_active: true, ..u }
}

/// Outcome of a registration once the email was or was not sent.
pub open spec fn notification_result(sent: bool, policy: EmailPolicy) -> Result<(), RegisterError> {
    if !sent && policy == EmailPolicy::Fatal {
        Err(RegisterError::NotificationFailed)
    } else {
        Ok(())
    }
}

pub fn new_pending_user(new_user: &CreateNewUser, id: &Vec<u8>) -> (r: UserRecord)
    ensures
        r@ == pending_user(new_user@, id@),
{
    UserRecord {
        id: id.clone(),
        email: new_user.email.clone(),
        password: new_user.password.clone(),
        first_name: new_user.first_name.clone(),
        last_name: new_user.last_name.clone(),
        is_active: false,
    }
}

/// Marks a user record as active; nothing else changes.
pub fn activate_new_user(user: &mut UserRecord)
    ensures
        final(user)@ == activated(old(user)@),
{
    user.is_active = true;
}

/// Applies the email policy to the result of sending the confirmation
/// email.
pub fn notification_outcome(sent: bool, policy: EmailPolicy) -> (r: Result<(), RegisterError>)
    ensures
        r == notification_result(sent, policy),
{
    if !sent && policy == EmailPolicy::Fatal {
        Err(RegisterError::NotificationFailed)
    } else {
        Ok(())
    }
}

pub fn bytes_equal(a: &Vec<u8>, b: &Vec<u8>) -> (r: bool)
    ensures
        r == (a@ == b@),
{
    if a.len() != b.len() {
        return false;
    }
    let mut i: usize = 0;
    while i < a.len()
        invariant
            0 <= i <= a@.len() == b@.len(),
            a@.subrange(0, i as int) == b@.subrange(0, i as int),
        decreases a@.len() - i,
    {
        if a[i] != b[i] {
            assert(a@.subrange(0, i + 1)[i as int] != b@.subrange(0, i + 1)[i as int]);
            return false;
        }
        assert(a@.subrange(0, i + 1) =~= a@.subrange(0, i as int).push(a@[i as int]));
        assert(b@.subrange(0, i + 1) =~= b@.subrange(0, i as int).push(b@[i as int]));
        i = i + 1;
    }
    assert(a@.subrange(0, i as int) =~= a@);
    assert(b@.subrange(0, i as int) =~= b@);
    true
}

/// Some record of `s` has identifier `id`.
pub open spec fn has_id(s: Seq<UserView>, id: Seq<u8>) -> bool {
    exists|i: int| 0 <= i < s.len() && (#[trigger] s[i]).id == id
}

/// Some record of `s` has address `email`.
pub open spec fn has_email(s: Seq<UserView>, email: Seq<char>) -> bool {
    exists|i: int| 0 <= i < s.len() && (#[trigger] s[i]).email == email
}

/// `s` with the record of identifier `id` made active.
pub open spec fn activate_in(s: Seq<UserView>, id: Seq<u8>) -> Seq<UserView> {
    Seq::new(s.len(), |i: int| if s[i].id == id { activated(s[i]) } else { s[i] })
}

/// Identifiers and addresses are unique among the records.
pub open spec fn users_wf(s: Seq<UserView>) -> bool {
    &&& forall|i: int, j: int| 0 <= i < j < s.len() ==> (#[trigger] s[i]).id != (#[trigger] s[j]).id
    &&& forall|i: int, j: int|
        0 <= i < j < s.len() ==> (#[trigger] s[i]).email != (#[trigger] s[j]).email
}

/// An in-memory user record store: create, look up and activate by
/// identifier.
pub struct UserDirectory {
    users: Vec<UserRecord>,
}

impl View for UserDirectory {
    type V = Seq<UserView>;

    closed spec fn view(&self) -> Seq<UserView> {
        self.users@.map_values(|u: UserRecord| u@)
    }
}

impl UserDirectory {
    pub open spec fn wf(&self) -> bool {
        users_wf(self@)
    }

    pub fn new() -> (r: UserDirectory)
        ensures
            r@ == Seq::<UserView>::empty(),
            r.wf(),
    {
        let r = UserDirectory { users: Vec::new() };
        assert(r@ =~= Seq::<UserView>::empty());
        r
    }

    pub fn len(&self) -> (r: usize)
        ensures
            r == self@.len(),
    {
        self.users.len()
    }

    /// Position of the record with identifier `id`.
    pub fn find(&self, id: &Vec<u8>) -> (r: Option<usize>)
        ensures
            match r {
                Some(i) => i < self@.len() && self@[i as int].id == id@,
                None => !has_id(self@, id@),
            },
    {
        let mut i: usize = 0;
        while i < self.users.len()
            invariant
                0 <= i <= self@.len() == self.users@.len(),
                forall|j: int| 0 <= j < i ==> (#[trigger] self@[j]).id != id@,
            decreases self@.len() - i,
        {
            if bytes_equal(&self.users[i].id, id) {
                return Some(i);
            }
            i = i + 1;
        }
        None
    }

    fn find_email(&self, email: &String) -> (r: bool)
        ensures
            r == has_email(self@, email@),
    {
        let mut i: usize = 0;
        while i < self.users.len()
            invariant
                0 <= i <= self@.len() == self.users@.len(),
                forall|j: int| 0 <= j < i ==> (#[trigger] self@[j]).email != email@,
            decreases self@.len() - i,
        {
            if self.users[i].email == *email {
                assert(self@[i as int].email == email@);
                return true;
            }
            i = i + 1;
        }
        false
    }

    /// The record with identifier `id`.
    pub fn get(&self, id: &Vec<u8>) -> (r: Option<&UserRecord>)
        ensures
            match r {
                Some(u) => has_id(self@, id@) && u@.id == id@ && exists|i: int|
                    0 <= i < self@.len() && self@[i] == u@,
                None => !has_id(self@, id@),
            },
    {
        match self.find(id) {
            Some(i) => Some(&self.users[i]),
            None => None,
        }
    }

    /// Adds a record; refused when its identifier or its address is taken.
    pub fn create(&mut self, user: UserRecord) -> (r: Result<(), RegisterError>)
        requires
            old(self).wf(),
        ensures
            final(self).wf(),
            r is Err <==> has_id(old(self)@, user@.id) || has_email(old(self)@, user@.email),
            r is Err ==> r == Err::<(), RegisterError>(RegisterError::UserCreationFailed)
                && final(self)@ == old(self)@,
            r is Ok ==> final(self)@ == old(self)@.push(user@),
    {
        if self.find(&user.id).is_some() || self.find_email(&user.email) {
            return Err(RegisterError::UserCreationFailed);
        }
        let ghost u = user@;
        self.users.push(user);
        assert(self@ =~= old(self)@.push(u));
        Ok(())
    }

    /// Activates the record with identifier `id`; false when there is none.
    pub fn activate(&mut self, id: &Vec<u8>) -> (r: bool)
        requires
            old(self).wf(),
        ensures
            final(self).wf(),
            r == has_id(old(self)@, id@),
            final(self)@ == activate_in(old(self)@, id@),
    {
        match self.find(id) {
            Some(i) => {
                activate_new_user(&mut self.users[i]);
                assert(self@ =~= activate_in(old(self)@, id@));
                true
            },
            None => {
                assert(self@ =~= activate_in(old(self)@, id@));
                false
            },
        }
    }
}

/// Registers a new user: creates the inactive record under `user_id`,
/// then starts its confirmation. When the record cannot be created nothing
/// else is attempted and both stores are left as they were. On success the
/// caller signs the payload of the returned claims, sends the token by
/// email, and settles the result with `notification_outcome`.
pub fn register(
    directory: &mut UserDirectory,
    store: &mut InvalidationStore,
    new_user: &CreateNewUser,
    user_id: &Vec<u8>,
    ttl: u64,
    now: u64,
    token_id: u64,
) -> (r: Result<Claims, RegisterError>)
    requires
        old(directory).wf(),
        user_id@.len() == SUBJECT_LEN,
        now + ttl <= u64::MAX,
    ensures
        final(directory).wf(),
        if has_id(old(directory)@, user_id@) || has_email(old(directory)@, new_user@.email) {
            &&& r == Err::<Claims, RegisterError>(RegisterError::UserCreationFailed)
            &&& final(directory)@ == old(directory)@
            &&& final(store)@ == old(store)@
        } else {
            &&& r is Ok
            &&& r->Ok_0@ == issued_claims(Purpose::Confirm, user_id@, ttl, now, token_id)
            &&& final(directory)@ == old(directory)@.push(pending_user(new_user@, user_id@))
            &&& final(store)@ == old(store)@.insert(token_id, (now + ttl) as u64)
        },
{
    let user = new_pending_user(new_user, user_id);
    match directory.create(user) {
        Err(e) => Err(e),
        Ok(()) => Ok(start_confirmation(store, user_id, ttl, now, token_id)),
    }
}

/// Confirms a registration: verifies and consumes the presented payload,
/// then activates the user it names and returns that user's identifier.
/// A refused token leaves the records alone. A user that is gone once the
/// token was consumed gives `ActivationPersist`: the token stays burned.
pub fn confirm(
    directory: &mut UserDirectory,
    store: &mut InvalidationStore,
    payload: &Vec<u8>,
    signature_valid: bool,
    now: u64,
) -> (r: Result<Vec<u8>, ConfirmError>)
    requires
        old(directory).wf(),
    ensures
        final(directory).wf(),
        ({
            let (res, m) = confirmation_outcome(old(store)@, payload@, signature_valid, now);
            &&& final(store)@ == m
            &&& match res {
                Err(e) => r == Err::<Vec<u8>, ConfirmError>(ConfirmError::Token(e))
                    && final(directory)@ == old(directory)@,
                Ok(c) => if has_id(old(directory)@, c.subject_id) {
                    &&& r is Ok
                    &&& r->Ok_0@ == c.subject_id
                    &&& final(directory)@ == activate_in(old(directory)@, c.subject_id)
                } else {
                    &&& r == Err::<Vec<u8>, ConfirmError>(ConfirmError::ActivationPersist)
                    &&& final(directory)@ == old(directory)@
                },
            }
        }),
{
    match complete_confirmation(store, payload, signature_valid, now) {
        Err(e) => Err(ConfirmError::Token(e)),
        Ok(c) => {
            if directory.activate(&c.subject_id) {
                Ok(c.subject_id)
            } else {
                assert(directory@ =~= old(directory)@);
                Err(ConfirmError::ActivationPersist)
            }
        },
    }
}

} // verus!
