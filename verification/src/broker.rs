//! The access broker: at most one ephemeral privileged account exists per
//! node at any time. A lease ties that account to one job; creating a lease
//! is refused while the slot is occupied, and revoking or expiring the lease
//! frees the slot.
//!
//! The actual host-account work goes through an [`AccountGateway`], which the
//! caller supplies; the broker makes no change to its own state when the
//! gateway fails.

use vstd::prelude::*;
use vstd::string::{StrSliceExecFns, StringExecFns};

verus! {

/// What the privileged account gateway can report when it fails.
#[derive(Debug, Clone, PartialEq, Eq)]
pub enum GatewayError {
    /// The delegated helper channel is absent or gave no answer in time.
    ServiceUnavailable,
    /// The helper answered with something other than the success token; the
    /// text is its answer.
    ServiceError(String),
    /// An elevated host command exited nonzero; the text is its diagnostic
    /// output.
    CommandFailure(String),
}

/// What the broker can report when an operation is refused.
#[derive(Debug, Clone, PartialEq, Eq)]
pub enum BrokerError {
    /// The single slot is occupied: another operator already holds this
    /// node. Retrying later may succeed.
    ExclusivityViolation,
    /// No lease exists under the given job identifier.
    UserNotFound,
    /// The account gateway failed; the underlying error is carried
    /// unchanged.
    Gateway(GatewayError),
}

/// The ephemeral account descriptor of a lease.
#[derive(Debug, PartialEq)]
pub struct SshUser {
    pub username: String,
    pub job_id: String,
    pub created_at: u64,
    pub is_active: bool,
    pub secret: String,
}

impl Clone for SshUser {
    fn clone(&self) -> (res: Self)
        ensures
            res == *self,
    {
        SshUser {
            username: self.username.clone(),
            job_id: self.job_id.clone(),
            created_at: self.created_at,
            is_active: self.is_active,
            secret: self.secret.clone(),
        }
    }
}

/// A time-boxed grant of exclusive access for one job.
#[derive(Debug, PartialEq)]
pub struct JobAccess {
    pub job_id: String,
    pub client_id: String,
    pub ssh_user: SshUser,
    pub expires_at: u64,
}

impl Clone for JobAccess {
    fn clone(&self) -> (res: Self)
        ensures
            res == *self,
    {
        JobAccess {
            job_id: self.job_id.clone(),
            client_id: self.client_id.clone(),
            ssh_user: self.ssh_user.clone(),
            expires_at: self.expires_at,
        }
    }
}

/// The capability to create and delete host accounts. The broker states
/// nothing about how an implementation behaves: its own contracts hold for
/// every outcome a gateway can produce.
pub trait AccountGateway {
    /// Create a host account under this name with this secret.
    fn create_account(&mut self, username: &String, secret: &String) -> Result<(), GatewayError>;

    /// Delete the host account of this name.
    fn remove_account(&mut self, username: &String) -> Result<(), GatewayError>;
}

/// A gateway that performs no host work and always reports success; the
/// account bookkeeping alone is exercised. It records every request.
pub struct RecordingGateway {
    pub created: Vec<String>,
    pub removed: Vec<String>,
}

impl RecordingGateway {
    pub fn new() -> (g: RecordingGateway)
        ensures
            g.created@ == Seq::<String>::empty(),
            g.removed@ == Seq::<String>::empty(),
    {
        let g = RecordingGateway { created: Vec::new(), removed: Vec::new() };
        assert(g.created@ =~= Seq::<String>::empty());
        assert(g.removed@ =~= Seq::<String>::empty());
        g
    }
}

impl AccountGateway for RecordingGateway {
    fn create_account(&mut self, username: &String, secret: &String) -> (r: Result<
        (),
        GatewayError,
    >)
        ensures
            r is Ok,
            final(self).created@ == old(self).created@.push(*username),
            final(self).removed@ == old(self).removed@,
    {
        self.created.push(username.clone());
        Ok(())
    }

    fn remove_account(&mut self, username: &String) -> (r: Result<(), GatewayError>)
        ensures
            r is Ok,
            final(self).removed@ == old(self).removed@.push(*username),
            final(self).created@ == old(self).created@,
    {
        self.removed.push(username.clone());
        Ok(())
    }
}

/// A gateway that performs no host work and refuses every request, the way
/// the real one does when the helper is absent and direct execution fails.
pub struct RefusingGateway {}

impl AccountGateway for RefusingGateway {
    fn create_account(&mut self, username: &String, secret: &String) -> (r: Result<
        (),
        GatewayError,
    >)
        ensures
            r == Err::<(), GatewayError>(GatewayError::ServiceUnavailable),
    {
        Err(GatewayError::ServiceUnavailable)
    }

    fn remove_account(&mut self, username: &String) -> (r: Result<(), GatewayError>)
        ensures
            r == Err::<(), GatewayError>(GatewayError::ServiceUnavailable),
    {
        Err(GatewayError::ServiceUnavailable)
    }
}

// ---------------------------------------------------------------------------
// Secret and username generation
// ---------------------------------------------------------------------------

/// The characters a generated account secret is drawn from.
pub open spec fn password_charset() -> Seq<char> {
    "ABCDEFGHIJKLMNOPQRSTUVWXYZabcdefghijklmnopqrstuvwxyz0123456789!@#$%^&*"@
}

/// Relies on rand's Rng::gen_range on a half-open integer range: the sample
/// lies inside the range. The precondition keeps the range nonempty, the one
/// case in which that call panics.
#[verifier::external_body]
fn random_index(bound: usize) -> (r: usize)
    requires
        0 < bound,
    ensures
        r < bound,
{
    rand::Rng::gen_range(&mut rand::thread_rng(), 0..bound)
}

/// Relies on uuid's Uuid::new_v4 and Uuid::as_u128: a freshly drawn random
/// identifier, handed out as its 128-bit value. Nothing is promised of a
/// random value.
#[verifier::external_body]
fn fresh_uuid_bits() -> u128 {
    uuid::Uuid::new_v4().as_u128()
}

/// A random 16-character secret, every character drawn from the fixed
/// charset.
pub fn generate_secure_password() -> (r: String)
    ensures
        r@.len() == 16,
        forall|i: int| 0 <= i < 16 ==> password_charset().contains(#[trigger] r@[i]),
{
    let charset = "ABCDEFGHIJKLMNOPQRSTUVWXYZabcdefghijklmnopqrstuvwxyz0123456789!@#$%^&*";
    proof {
        reveal_strlit("ABCDEFGHIJKLMNOPQRSTUVWXYZabcdefghijklmnopqrstuvwxyz0123456789!@#$%^&*");
    }
    let mut out = String::new();
    let mut k: usize = 0;
    while k < 16
        invariant
            k <= 16,
            out@.len() == k,
            charset@ == password_charset(),
            charset@.len() == 70,
            forall|i: int| 0 <= i < k ==> password_charset().contains(#[trigger] out@[i]),
        decreases 16 - k,
    {
        let idx = random_index(70);
        let piece = charset.substring_char(idx, idx + 1);
        proof {
            assert(piece@ == charset@.subrange(idx as int, idx as int + 1));
            assert(piece@[0] == charset@[idx as int]);
            assert(password_charset().contains(charset@[idx as int]));
        }
        out.append(piece);
        k += 1;
    }
    out
}

/// The sixteen lowercase hexadecimal digits.
pub open spec fn hex_digits() -> Seq<char> {
    "0123456789abcdef"@
}

/// A well-formed generated account name: the fixed prefix and eight
/// hexadecimal digits.
pub open spec fn username_wf(u: Seq<char>) -> bool {
    &&& u.len() == 12
    &&& u.subrange(0, 4) == "job_"@
    &&& forall|i: int| 4 <= i < 12 ==> hex_digits().contains(#[trigger] u[i])
}

/// The `i`-th lowest group of four bits.
pub open spec fn nibble_of(bits: u128, i: int) -> int
    decreases i,
{
    if i <= 0 {
        bits as int % 16
    } else {
        nibble_of((bits / 16) as u128, i - 1)
    }
}

/// Format a fresh account name out of random identifier bits: the fixed
/// prefix, then the lowest eight nibbles as hex digits.
fn make_username(bits: u128) -> (r: String)
    ensures
        username_wf(r@),
        forall|i: int| 0 <= i < 8 ==> r@[4 + i] == hex_digits()[nibble_of(bits, i)],
{
    let hexchars = "0123456789abcdef";
    proof {
        reveal_strlit("0123456789abcdef");
        reveal_strlit("job_");
    }
    let mut out = String::from_str("job_");
    let mut d = bits;
    let mut k: usize = 0;
    while k < 8
        invariant
            k <= 8,
            out@.len() == 4 + k,
            out@.subrange(0, 4) == "job_"@,
            hexchars@ == hex_digits(),
            hexchars@.len() == 16,
            forall|i: int| 4 <= i < 4 + k ==> hex_digits().contains(#[trigger] out@[i]),
            forall|i: int| 0 <= i < k ==> out@[4 + i] == hex_digits()[nibble_of(bits, i)],
            forall|i: int| 0 <= i ==> #[trigger] nibble_of(d, i) == nibble_of(bits, i + k),
        decreases 8 - k,
    {
        let nib = (d % 16) as usize;
        proof {
            assert(nib as int == nibble_of(d, 0));
            assert(nibble_of(d, 0) == nibble_of(bits, k as int));
            assert forall|i: int| 0 <= i implies #[trigger] nibble_of((d / 16) as u128, i)
                == nibble_of(bits, i + k + 1) by {
                assert(nibble_of(d, i + 1) == nibble_of(bits, i + 1 + k));
            }
        }
        d = d / 16;
        let piece = hexchars.substring_char(nib, nib + 1);
        proof {
            assert(piece@[0] == hexchars@[nib as int]);
            assert(hex_digits().contains(hexchars@[nib as int]));
            assert((out@ + piece@).subrange(0, 4) =~= out@.subrange(0, 4));
        }
        out.append(piece);
        k += 1;
    }
    out
}

// ---------------------------------------------------------------------------
// The broker
// ---------------------------------------------------------------------------

/// When a lease granted at `now` for this many hours runs out; saturates at
/// the end of representable time.
pub open spec fn lease_expiry(now: u64, duration_hours: u64) -> u64 {
    if now + duration_hours * 3600 > u64::MAX {
        u64::MAX
    } else {
        (now + duration_hours * 3600) as u64
    }
}

fn compute_expiry(now: u64, duration_hours: u64) -> (r: u64)
    ensures
        r == lease_expiry(now, duration_hours),
{
    let secs = if duration_hours > u64::MAX / 3600 {
        proof {
            assert(duration_hours * 3600 > u64::MAX) by (nonlinear_arith)
                requires
                    duration_hours > u64::MAX / 3600,
            ;
        }
        u64::MAX
    } else {
        proof {
            assert(duration_hours * 3600 <= u64::MAX) by (nonlinear_arith)
                requires
                    duration_hours <= u64::MAX / 3600,
            ;
        }
        duration_hours * 3600
    };
    if secs == u64::MAX || now > u64::MAX - secs {
        u64::MAX
    } else {
        now + secs
    }
}

/// Whether some lease of the sequence belongs to this job.
pub open spec fn has_job(s: Seq<JobAccess>, job_id: Seq<char>) -> bool {
    exists|i: int| 0 <= i < s.len() && s[i].job_id@ == job_id
}

/// The single-slot access broker. It owns the lease table and the
/// exclusivity token; nothing else may mutate them.
pub struct SshManager {
    active_users: Vec<JobAccess>,
    current_user: Option<String>,
}

impl SshManager {
    /// The leases currently held. The invariant keeps this to at most one.
    pub closed spec fn leases(&self) -> Seq<JobAccess> {
        self.active_users@
    }

    /// The exclusivity slot: the username of the active account, if any.
    pub closed spec fn slot(&self) -> Option<Seq<char>> {
        match self.current_user {
            Some(u) => Some(u@),
            None => None,
        }
    }

    /// Broker invariant: the slot is free and no lease exists, or the slot
    /// holds exactly the one active lease's username. Never more than one
    /// ephemeral account exists.
    pub open spec fn wf(&self) -> bool {
        match self.slot() {
            None => self.leases().len() == 0,
            Some(u) => self.leases().len() == 1 && self.leases()[0].ssh_user.username@ == u,
        }
    }

    /// A broker with the slot free and no leases.
    pub fn new() -> (m: SshManager)
        ensures
            m.wf(),
            m.slot() is None,
            m.leases() == Seq::<JobAccess>::empty(),
    {
        let m = SshManager { active_users: Vec::new(), current_user: None };
        assert(m.leases() =~= Seq::<JobAccess>::empty());
        m
    }

    /// The username of the account currently holding the node, if any.
    pub fn get_current_user(&self) -> (r: Option<String>)
        ensures
            match (r, self.slot()) {
                (Some(u), Some(su)) => u@ == su,
                (None, None) => true,
                _ => false,
            },
    {
        match &self.current_user {
            Some(u) => Some(u.clone()),
            None => None,
        }
    }

    /// A snapshot of every active lease.
    pub fn get_active_jobs(&self) -> (r: Vec<JobAccess>)
        ensures
            r@ == self.leases(),
    {
        let n = self.active_users.len();
        let mut out: Vec<JobAccess> = Vec::new();
        let mut i: usize = 0;
        while i < n
            invariant
                n == self.leases().len(),
                i <= n,
                out@ =~= self.leases().take(i as int),
            decreases n - i,
        {
            let e = self.active_users[i].clone();
            out.push(e);
            proof {
                assert(out@ =~= self.leases().take(i as int + 1));
            }
            i += 1;
        }
        proof {
            assert(self.leases().take(n as int) =~= self.leases());
        }
        out
    }

    /// Grant the node to one job: reserve the slot, draw an account name and
    /// secret, have the gateway create the account, and record the lease.
    /// Refused outright while the slot is occupied; a gateway failure leaves
    /// the broker exactly as it was.
    pub fn create_job_user<G: AccountGateway>(
        &mut self,
        gateway: &mut G,
        job_id: &str,
        client_id: &str,
        duration_hours: u64,
        now: u64,
    ) -> (r: Result<JobAccess, BrokerError>)
        requires
            old(self).wf(),
        ensures
            final(self).wf(),
            (r matches Err(e) && e == BrokerError::ExclusivityViolation) <==> old(self).slot()
                is Some,
            r matches Err(e) ==> (e matches BrokerError::Gateway(_) || e
                == BrokerError::ExclusivityViolation),
            r is Err ==> *final(self) == *old(self),
            r matches Ok(lease) ==> {
                &&& old(self).slot() is None
                &&& lease.job_id@ == job_id@
                &&& lease.client_id@ == client_id@
                &&& lease.expires_at == lease_expiry(now, duration_hours)
                &&& lease.ssh_user.job_id@ == job_id@
                &&& lease.ssh_user.created_at == now
                &&& lease.ssh_user.is_active
                &&& lease.ssh_user.secret@.len() == 16
                &&& (forall|i: int|
                    0 <= i < 16 ==> password_charset().contains(
                        #[trigger] lease.ssh_user.secret@[i],
                    ))
                &&& username_wf(lease.ssh_user.username@)
                &&& final(self).slot() == Some(lease.ssh_user.username@)
                &&& final(self).leases() == seq![lease]
            },
    {
        if self.current_user.is_some() {
            return Err(BrokerError::ExclusivityViolation);
        }
        let username = make_username(fresh_uuid_bits());
        let secret = generate_secure_password();
        match gateway.create_account(&username, &secret) {
            Err(e) => Err(BrokerError::Gateway(e)),
            Ok(_) => {
                let expires_at = compute_expiry(now, duration_hours);
                let ssh_user = SshUser {
                    username: username.clone(),
                    job_id: job_id.to_owned(),
                    created_at: now,
                    is_active: true,
                    secret,
                };
                let lease = JobAccess {
                    job_id: job_id.to_owned(),
                    client_id: client_id.to_owned(),
                    ssh_user,
                    expires_at,
                };
                let stored = lease.clone();
                self.current_user = Some(username);
                self.active_users.push(stored);
                proof {
                    assert(old(self).leases().len() == 0);
                    assert(self.leases() =~= seq![lease]);
                }
                Ok(lease)
            },
        }
    }

    /// Revoke the lease of one job: have the gateway delete its account,
    /// drop the lease, and free the slot if that account held it. Nothing
    /// changes when the job is unknown or the gateway fails.
    pub fn remove_job_user<G: AccountGateway>(&mut self, gateway: &mut G, job_id: &str) -> (r:
        Result<(), BrokerError>)
        requires
            old(self).wf(),
        ensures
            final(self).wf(),
            (r matches Err(e) && e == BrokerError::UserNotFound) <==> !has_job(
                old(self).leases(),
                job_id@,
            ),
            r matches Err(e) ==> (e matches BrokerError::Gateway(_) || e
                == BrokerError::UserNotFound),
            r is Err ==> *final(self) == *old(self),
            r is Ok ==> final(self).slot() is None && final(self).leases()
                == Seq::<JobAccess>::empty(),
    {
        let key: String = job_id.to_owned();
        if self.active_users.len() == 0 {
            assert(!has_job(self.leases(), job_id@));
            return Err(BrokerError::UserNotFound);
        }
        if !(self.active_users[0].job_id == key) {
            assert(!has_job(self.leases(), job_id@)) by {
                assert(forall|i: int|
                    0 <= i < self.leases().len() ==> (#[trigger] self.leases()[i]).job_id@
                        != job_id@);
            }
            return Err(BrokerError::UserNotFound);
        }
        assert(has_job(self.leases(), job_id@));
        let username = self.active_users[0].ssh_user.username.clone();
        match gateway.remove_account(&username) {
            Err(e) => Err(BrokerError::Gateway(e)),
            Ok(_) => {
                let lease = self.active_users.remove(0);
                let frees_slot = match &self.current_user {
                    Some(cur) => *cur == lease.ssh_user.username,
                    None => false,
                };
                if frees_slot {
                    self.current_user = None;
                }
                proof {
                    assert(self.leases() =~= Seq::<JobAccess>::empty());
                }
                Ok(())
            },
        }
    }

    /// Whether this account name may log in right now: some lease's account
    /// carries it, is flagged active, and has not yet expired.
    pub fn validate_user_access(&self, username: &str, now: u64) -> (r: bool)
        ensures
            r == exists|i: int|
                0 <= i < self.leases().len() && (#[trigger] self.leases()[i]).ssh_user.username@
                    == username@ && self.leases()[i].ssh_user.is_active && self.leases()[i].expires_at
                    > now,
    {
        let key: String = username.to_owned();
        let n = self.active_users.len();
        let mut i: usize = 0;
        while i < n
            invariant
                n == self.leases().len(),
                i <= n,
                key@ == username@,
                forall|j: int|
                    0 <= j < i ==> !((#[trigger] self.leases()[j]).ssh_user.username@ == username@
                        && self.leases()[j].ssh_user.is_active && self.leases()[j].expires_at
                        > now),
            decreases n - i,
        {
            let a = &self.active_users[i];
            if a.ssh_user.username == key && a.ssh_user.is_active && a.expires_at > now {
                return true;
            }
            i += 1;
        }
        false
    }

    /// Tear down every lease whose expiry has passed, as a revocation would,
    /// and hand back the identifiers of the jobs cleaned. A lease whose
    /// gateway teardown fails stays, to be retried on a later pass.
    pub fn cleanup_expired_users<G: AccountGateway>(&mut self, gateway: &mut G, now: u64) -> (r:
        Result<Vec<String>, BrokerError>)
        requires
            old(self).wf(),
        ensures
            final(self).wf(),
            r is Ok,
            r matches Ok(ids) ==> {
                if old(self).leases().len() == 1 && old(self).leases()[0].expires_at <= now {
                    ||| (ids@.len() == 1 && ids@[0]@ == old(self).leases()[0].job_id@
                        && final(self).slot() is None && final(self).leases()
                        == Seq::<JobAccess>::empty())
                    ||| (ids@.len() == 0 && *final(self) == *old(self))
                } else {
                    ids@.len() == 0 && *final(self) == *old(self)
                }
            },
    {
        let mut cleaned: Vec<String> = Vec::new();
        assert(cleaned@ =~= Seq::<String>::empty());
        if self.active_users.len() == 0 {
            return Ok(cleaned);
        }
        if self.active_users[0].expires_at > now {
            return Ok(cleaned);
        }
        let jid = self.active_users[0].job_id.clone();
        match self.remove_job_user(gateway, jid.as_str()) {
            Ok(_) => {
                cleaned.push(jid);
                Ok(cleaned)
            },
            Err(_) => Ok(cleaned),
        }
    }
}

/// The single-tenancy law: a well-formed broker never holds more than one
/// lease, and a lease exists exactly while the slot is occupied.
pub proof fn lemma_single_tenancy(m: &SshManager)
    requires
        m.wf(),
    ensures
        m.leases().len() <= 1,
        m.slot() is Some <==> m.leases().len() == 1,
{
}

impl Default for SshManager {
    /// The same broker [`SshManager::new`] builds: slot free, no leases.
    fn default() -> (m: Self)
        ensures
            m.wf(),
            m.slot() is None,
            m.leases() == Seq::<JobAccess>::empty(),
    {
        SshManager::new()
    }
}

} // verus!
