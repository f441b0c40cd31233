use crate::chat_service::User;
use crate::sanitize::{occurs_at, occurs_at_exec};
use vstd::prelude::*;
use vstd::string::*;

verus! {

/// The name a remote author is shown under: `"{display} ({tag})"`.
pub open spec fn display_of(u: User) -> Seq<char> {
    u.display@ + " ("@ + u.tag@ + ")"@
}

/// Composes the display string for `user`.
pub fn persona_display(user: &User) -> (r: String)
    ensures
        r@ == display_of(*user),
{
    let mut out = user.display.clone();
    out.append(" (");
    out.append(user.tag.as_str());
    out.append(")");
    out
}

/// The local part of the standing account that represents `user_id`: the bridge's
/// namespace prefix followed by the remote id.
pub fn puppet_localpart(prefix: &str, user_id: &str) -> (r: String)
    ensures
        r@ == prefix@ + user_id@,
{
    let mut out = String::from_str(prefix);
    out.append(user_id);
    out
}

/// Whether the account with local part `localpart` belongs to the bridge itself (its bot
/// or one of its puppets), whose messages are never relayed back.
pub fn is_bridge_account(localpart: &str, bot_localpart: &str) -> (r: bool)
    ensures
        r == occurs_at(localpart@, 0, bot_localpart@),
{
    occurs_at_exec(localpart, localpart.unicode_len(), 0, bot_localpart)
}

/// What a standing account still needs before a message can be sent as it.
pub enum ProvisionAction {
    /// Create the account (an account that already exists counts as created).
    Register,
    /// Bring the account into the destination room.
    JoinRoom,
    /// Set the account's display name to the current persona display.
    SyncDisplay,
    /// Nothing: the message can be sent.
    Ready,
}

/// How a provisioning call went.
pub enum StepOutcome {
    Done,
    /// The remote side reported that the step had already been done.
    AlreadyDone,
    Failed,
}

/// What the caller does after a provisioning step.
pub enum ProvisionStatus {
    /// Ask for the next action.
    Continue,
    /// Send now, as an account that exists, without the step that failed.
    SendUnrefined,
    /// Give the message up: the account cannot be used.
    Abort,
}

/// What is known of one standing account.
pub struct PuppetAccount {
    localpart: String,
    rooms: Vec<String>,
    synced_display: Option<String>,
}

pub struct AccountView {
    pub localpart: Seq<char>,
    pub rooms: Seq<Seq<char>>,
    pub synced_display: Option<Seq<char>>,
}

impl View for PuppetAccount {
    type V = AccountView;

    closed spec fn view(&self) -> AccountView {
        AccountView {
            localpart: self.localpart@,
            rooms: self.rooms@.map_values(|r: String| r@),
            synced_display: match self.synced_display {
                Some(d) => Some(d@),
                None => None,
            },
        }
    }
}

/// The standing accounts known to exist, with their rooms and last synced display.
pub struct PuppetRegistry {
    accounts: Vec<PuppetAccount>,
}

impl View for PuppetRegistry {
    type V = Seq<AccountView>;

    closed spec fn view(&self) -> Seq<AccountView> {
        self.accounts@.map_values(|a: PuppetAccount| a@)
    }
}

/// The position of the first account named `lp` at or after `i`.
pub open spec fn index_from(accts: Seq<AccountView>, lp: Seq<char>, i: int) -> Option<int>
    decreases accts.len() - i,
{
    if i < 0 || i >= accts.len() {
        None
    } else if accts[i].localpart == lp {
        Some(i)
    } else {
        index_from(accts, lp, i + 1)
    }
}

/// A position that is found holds an account named `lp`.
pub proof fn lemma_index_from(accts: Seq<AccountView>, lp: Seq<char>, i: int)
    ensures
        index_from(accts, lp, i) matches Some(k) ==> 0 <= i <= k < accts.len() && accts[k].localpart
            == lp,
    decreases accts.len() - i,
{
    if 0 <= i < accts.len() && accts[i].localpart != lp {
        lemma_index_from(accts, lp, i + 1);
    }
}

/// The account named `lp`, if it is known.
pub open spec fn account_of(accts: Seq<AccountView>, lp: Seq<char>) -> Option<AccountView> {
    match index_from(accts, lp, 0) {
        Some(i) => Some(accts[i]),
        None => None,
    }
}

/// The registry with the account named `a.localpart` replaced by `a`, or `a` added.
pub open spec fn with_account(accts: Seq<AccountView>, a: AccountView) -> Seq<AccountView> {
    match index_from(accts, a.localpart, 0) {
        Some(i) => accts.update(i, a),
        None => accts.push(a),
    }
}

/// The next step towards sending as account `lp` in `room` under the name `display`.
pub open spec fn planned_action(
    accts: Seq<AccountView>,
    lp: Seq<char>,
    display: Seq<char>,
    room: Seq<char>,
) -> ProvisionAction {
    match account_of(accts, lp) {
        None => ProvisionAction::Register,
        Some(a) => if !a.rooms.contains(room) {
            ProvisionAction::JoinRoom
        } else if a.synced_display != Some(display) {
            ProvisionAction::SyncDisplay
        } else {
            ProvisionAction::Ready
        },
    }
}

/// The account as it stands after `action` succeeded for it.
pub open spec fn advanced(
    a: Option<AccountView>,
    lp: Seq<char>,
    display: Seq<char>,
    room: Seq<char>,
    action: ProvisionAction,
) -> AccountView {
    match a {
        None => AccountView { localpart: lp, rooms: Seq::empty(), synced_display: None },
        Some(a) => match action {
            ProvisionAction::JoinRoom => if a.rooms.contains(room) {
                a
            } else {
                AccountView { rooms: a.rooms.push(room), ..a }
            },
            ProvisionAction::SyncDisplay => AccountView { synced_display: Some(display), ..a },
            _ => a,
        },
    }
}

/// The status that follows `outcome` of `action`. A failed registration leaves no
/// account to send as; once the account exists, a failed step only loses its refinement.
pub open spec fn status_after(action: ProvisionAction, outcome: StepOutcome) -> ProvisionStatus {
    match outcome {
        StepOutcome::Failed => match action {
            ProvisionAction::Register => ProvisionStatus::Abort,
            ProvisionAction::Ready => ProvisionStatus::Continue,
            _ => ProvisionStatus::SendUnrefined,
        },
        _ => ProvisionStatus::Continue,
    }
}

fn copy_rooms(rooms: &Vec<String>) -> (r: Vec<String>)
    ensures
        r@.map_values(|s: String| s@) == rooms@.map_values(|s: String| s@),
{
    let mut out: Vec<String> = Vec::new();
    let mut i: usize = 0;
    while i < rooms.len()
        invariant
            i <= rooms.len(),
            out@.len() == i,
            forall|j: int| 0 <= j < i ==> #[trigger] out@[j]@ == rooms@[j]@,
        decreases rooms.len() - i,
    {
        out.push(rooms[i].clone());
        i = i + 1;
    }
    assert(out@.map_values(|s: String| s@) =~= rooms@.map_values(|s: String| s@));
    out
}

fn has_room(rooms: &Vec<String>, room: &String) -> (r: bool)
    ensures
        r == rooms@.map_values(|s: String| s@).contains(room@),
{
    let ghost v = rooms@.map_values(|s: String| s@);
    let mut i: usize = 0;
    while i < rooms.len()
        invariant
            i <= rooms.len(),
            v == rooms@.map_values(|s: String| s@),
            forall|j: int| 0 <= j < i ==> v[j] != room@,
        decreases rooms.len() - i,
    {
        if rooms[i] == *room {
            assert(v[i as int] == room@);
            return true;
        }
        i = i + 1;
    }
    false
}

impl PuppetRegistry {
    pub fn new() -> (r: PuppetRegistry)
        ensures
            r@ == Seq::<AccountView>::empty(),
    {
        PuppetRegistry { accounts: Vec::new() }
    }

    fn find(&self, lp: &String) -> (r: Option<usize>)
        ensures
            r matches Some(i) ==> index_from(self@, lp@, 0) == Some(i as int) && i < self@.len(),
            r is None ==> index_from(self@, lp@, 0) is None,
    {
        let mut i: usize = 0;
        while i < self.accounts.len()
            invariant
                i <= self.accounts.len(),
                index_from(self@, lp@, i as int) == index_from(self@, lp@, 0),
            decreases self.accounts.len() - i,
        {
            assert(self@[i as int] == self.accounts@[i as int]@);
            if self.accounts[i].localpart == *lp {
                return Some(i);
            }
            i = i + 1;
        }
        None
    }

    /// The next step before a message can be sent as account `localpart` in `room`.
    pub fn next_action(&self, localpart: &String, display: &String, room: &String) -> (r:
        ProvisionAction)
        ensures
            r == planned_action(self@, localpart@, display@, room@),
    {
        match self.find(localpart) {
            None => ProvisionAction::Register,
            Some(i) => {
                let a = &self.accounts[i];
                assert(self@[i as int] == a@);
                if !has_room(&a.rooms, room) {
                    ProvisionAction::JoinRoom
                } else {
                    match &a.synced_display {
                        Some(d) => if *d == *display {
                            ProvisionAction::Ready
                        } else {
                            ProvisionAction::SyncDisplay
                        },
                        None => ProvisionAction::SyncDisplay,
                    }
                }
            },
        }
    }

    /// Records how `action` went for account `localpart` and says what to do next.
    pub fn record_outcome(
        &mut self,
        localpart: &String,
        display: &String,
        room: &String,
        action: ProvisionAction,
        outcome: StepOutcome,
    ) -> (r: ProvisionStatus)
        ensures
            r == status_after(action, outcome),
            outcome is Failed || action is Ready ==> final(self)@ == old(self)@,
            !(outcome is Failed) && !(action is Ready) ==> final(self)@ == with_account(
                old(self)@,
                advanced(account_of(old(self)@, localpart@), localpart@, display@, room@, action),
            ),
    {
        let status = match outcome {
            StepOutcome::Failed => match action {
                ProvisionAction::Register => ProvisionStatus::Abort,
                ProvisionAction::Ready => ProvisionStatus::Continue,
                _ => ProvisionStatus::SendUnrefined,
            },
            _ => ProvisionStatus::Continue,
        };
        if matches!(outcome, StepOutcome::Failed) || matches!(action, ProvisionAction::Ready) {
            return status;
        }
        match self.find(localpart) {
            None => {
                let fresh = PuppetAccount {
                    localpart: localpart.clone(),
                    rooms: Vec::new(),
                    synced_display: None,
                };
                assert(fresh@.rooms =~= Seq::<Seq<char>>::empty());
                assert(fresh@ == advanced(None, localpart@, display@, room@, action));
                self.accounts.push(fresh);
                assert(self@ =~= old(self)@.push(fresh@));
            },
            Some(i) => {
                let a = &self.accounts[i];
                assert(old(self)@[i as int] == a@);
                let mut rooms = copy_rooms(&a.rooms);
                let mut synced = match &a.synced_display {
                    Some(d) => Some(d.clone()),
                    None => None,
                };
                match action {
                    ProvisionAction::JoinRoom => {
                        if !has_room(&a.rooms, room) {
                            rooms.push(room.clone());
                            assert(rooms@.map_values(|s: String| s@) =~= a@.rooms.push(room@));
                        }
                    },
                    ProvisionAction::SyncDisplay => {
                        synced = Some(display.clone());
                    },
                    _ => {},
                }
                let updated = PuppetAccount { localpart: a.localpart.clone(), rooms, synced_display: synced };
                proof {
                    lemma_index_from(old(self)@, localpart@, 0);
                }
                assert(account_of(old(self)@, localpart@) == Some(a@));
                assert(updated@ == advanced(Some(a@), localpart@, display@, room@, action));
                self.accounts.set(i, updated);
                assert(self@ =~= old(self)@.update(i as int, updated@));
            },
        }
        status
    }
}

} // verus!
