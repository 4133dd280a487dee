//! The volumes of a running service and the lock of each.
//!
//! Every operation on a volume, a status query too, asks for the volume
//! before it touches the repository and gives it back when it is over. The
//! volume is granted with a ticket. While one operation has a volume no
//! other gets it, and only the ticket of the operation that has it gives it
//! back; volumes do not affect each other.

use crate::text::same_text;
use vstd::prelude::*;

verus! {

/// The repository of one volume: where it lies, the ticket of the operation
/// that is at work on it, and how often it has been granted.
pub struct GitState {
    pub repo_path: String,
    pub holder: Option<u64>,
    pub grants: u64,
}

impl GitState {
    /// The state of a repository at `repo_path` on which nothing is at work.
    pub fn new(repo_path: String) -> (state: Self)
        ensures
            state.repo_path == repo_path,
            state.holder is None,
            state.grants == 0,
    {
        GitState { repo_path, holder: None, grants: 0 }
    }
}

/// What is known of a volume: the root of its working tree, the ticket of
/// the operation that is at work on it, and how often it has been granted.
pub struct Slot {
    pub root: Seq<char>,
    pub holder: Option<u64>,
    pub grants: u64,
}

/// The answer to an operation that asks for a volume.
#[derive(Clone, Copy, Debug, PartialEq, Eq, Structural)]
pub enum Admission {
    /// The volume is now the operation's own, under this ticket.
    Granted(u64),
    /// Another operation is at work on the volume.
    Wait,
    /// No volume has that name.
    Unknown,
}

/// The answer that an operation gets that asks for the volume `name`. A
/// volume that is free is granted under the next ticket; one that has been
/// granted as often as tickets can count is granted no more.
pub open spec fn admission_of(volumes: Map<Seq<char>, Slot>, name: Seq<char>) -> Admission {
    if !volumes.contains_key(name) {
        Admission::Unknown
    } else if volumes[name].holder is Some || volumes[name].grants == u64::MAX {
        Admission::Wait
    } else {
        Admission::Granted((volumes[name].grants + 1) as u64)
    }
}

/// The volumes after an operation asked for the volume `name`: where it was
/// granted the operation has it, else nothing has changed.
pub open spec fn acquired(volumes: Map<Seq<char>, Slot>, name: Seq<char>) -> Map<Seq<char>, Slot> {
    match admission_of(volumes, name) {
        Admission::Granted(ticket) => volumes.insert(
            name,
            Slot { root: volumes[name].root, holder: Some(ticket), grants: ticket },
        ),
        _ => volumes,
    }
}

/// Whether `ticket` is the ticket of the operation that has the volume `name`.
pub open spec fn holds(volumes: Map<Seq<char>, Slot>, name: Seq<char>, ticket: u64) -> bool {
    volumes.contains_key(name) && volumes[name].holder == Some(ticket)
}

/// The volumes after the volume `name` was given back under `ticket`: the
/// volume is free where the ticket is that of the operation that has it,
/// else nothing has changed.
pub open spec fn released(volumes: Map<Seq<char>, Slot>, name: Seq<char>, ticket: u64) -> Map<
    Seq<char>,
    Slot,
> {
    if holds(volumes, name, ticket) {
        volumes.insert(
            name,
            Slot { root: volumes[name].root, holder: None, grants: volumes[name].grants },
        )
    } else {
        volumes
    }
}

/// The volumes after one more was made known: a name that is taken stays
/// with the volume that has it.
pub open spec fn extended(volumes: Map<Seq<char>, Slot>, name: Seq<char>, root: Seq<char>) -> Map<
    Seq<char>,
    Slot,
> {
    if volumes.contains_key(name) {
        volumes
    } else {
        volumes.insert(name, Slot { root, holder: None, grants: 0 })
    }
}

/// Whether every ticket in use has been granted: the ticket of an
/// operation that has a volume is none that the volume has yet to grant.
pub open spec fn tickets_granted(volumes: Map<Seq<char>, Slot>) -> bool {
    forall|name: Seq<char>, ticket: u64| #[trigger]
        holds(volumes, name, ticket) ==> 1 <= ticket <= volumes[name].grants
}

/// The volumes of a running service, each with the state of its repository.
pub struct AppState {
    names: Vec<String>,
    states: Vec<GitState>,
}

impl AppState {
    /// Each volume has one state, no two volumes share a name, and every
    /// ticket in use has been granted.
    pub closed spec fn wf(&self) -> bool {
        &&& self.names@.len() == self.states@.len()
        &&& forall|i: int, j: int|
            0 <= i < j < self.names@.len() ==> (#[trigger] self.names@[i])@ != (
            #[trigger] self.names@[j])@
        &&& forall|i: int|
            0 <= i < self.states@.len() ==> ((#[trigger] self.states@[i]).holder matches Some(
                ticket,
            ) ==> 1 <= ticket <= self.states@[i].grants)
    }

    /// In a registry that is well formed every ticket in use has been granted.
    pub proof fn lemma_tickets_granted(&self)
        requires
            self.wf(),
        ensures
            tickets_granted(self@),
    {
        assert forall|name: Seq<char>, ticket: u64| #[trigger]
            holds(self@, name, ticket) implies 1 <= ticket <= self@[name].grants by {
            let at = choose|at: int| self.named_at(name, at);
            self.lemma_slot(name, at);
        }
    }

    /// Whether the volume at `at` has the name `name`.
    pub closed spec fn named_at(&self, name: Seq<char>, at: int) -> bool {
        0 <= at < self.names@.len() && self.names@[at]@ == name
    }

    /// Where the volume `name` is kept.
    pub closed spec fn slot_of(&self, name: Seq<char>) -> int {
        choose|at: int| self.named_at(name, at)
    }

    /// The volumes by name.
    pub closed spec fn view(&self) -> Map<Seq<char>, Slot> {
        Map::new(
            |name: Seq<char>| exists|at: int| self.named_at(name, at),
            |name: Seq<char>|
                Slot {
                    root: self.states@[self.slot_of(name)].repo_path@,
                    holder: self.states@[self.slot_of(name)].holder,
                    grants: self.states@[self.slot_of(name)].grants,
                },
        )
    }

    proof fn lemma_slot(&self, name: Seq<char>, at: int)
        requires
            self.wf(),
            self.named_at(name, at),
        ensures
            self.slot_of(name) == at,
            self@.contains_key(name),
            self@[name].root == self.states@[at].repo_path@,
            self@[name].holder == self.states@[at].holder,
            self@[name].grants == self.states@[at].grants,
    {
        let chosen = self.slot_of(name);
        assert(self.named_at(name, chosen));
        if chosen < at {
            assert(self.names@[chosen]@ != self.names@[at]@);
        } else if at < chosen {
            assert(self.names@[at]@ != self.names@[chosen]@);
        }
    }

    /// A service without volumes.
    pub fn new() -> (state: Self)
        ensures
            state.wf(),
            state@ == Map::<Seq<char>, Slot>::empty(),
    {
        let state = AppState { names: Vec::new(), states: Vec::new() };
        assert(state@ =~= Map::<Seq<char>, Slot>::empty()) by {
            assert forall|name: Seq<char>| !state@.contains_key(name) by {
                assert forall|at: int| !state.named_at(name, at) by {}
            }
        }
        state
    }

    /// Finds where the volume `name` is kept.
    fn find(&self, name: &str) -> (found: Option<usize>)
        requires
            self.wf(),
        ensures
            match found {
                Some(at) => self.named_at(name@, at as int),
                None => !self@.contains_key(name@),
            },
    {
        let mut at: usize = 0;
        while at < self.names.len()
            invariant
                at <= self.names@.len(),
                forall|k: int| 0 <= k < at ==> !self.named_at(name@, k),
            decreases self.names@.len() - at,
        {
            if same_text(self.names[at].as_str(), name) {
                return Some(at);
            }
            at += 1;
        }
        assert forall|k: int| !self.named_at(name@, k) by {}
        None
    }

    /// Tells whether a volume has the name `name`.
    pub fn has_volume(&self, name: &str) -> (yes: bool)
        requires
            self.wf(),
        ensures
            yes == self@.contains_key(name@),
    {
        match self.find(name) {
            Some(at) => {
                proof {
                    self.lemma_slot(name@, at as int);
                }
                true
            },
            None => false,
        }
    }

    /// Returns the root of the volume `name`.
    pub fn root_of(&self, name: &str) -> (root: Option<String>)
        requires
            self.wf(),
        ensures
            match root {
                Some(path) => self@.contains_key(name@) && path@ == self@[name@].root,
                None => !self@.contains_key(name@),
            },
    {
        match self.find(name) {
            Some(at) => {
                proof {
                    self.lemma_slot(name@, at as int);
                }
                Some(self.states[at].repo_path.clone())
            },
            None => None,
        }
    }

    /// Makes a volume known under `name`, with its working tree at `root`.
    /// A name that is taken is refused and nothing changes.
    pub fn add_volume(&mut self, name: String, root: String) -> (added: bool)
        requires
            old(self).wf(),
        ensures
            final(self).wf(),
            added == !old(self)@.contains_key(name@),
            final(self)@ == extended(old(self)@, name@, root@),
    {
        if self.find(name.as_str()).is_some() {
            proof {
                let at = choose|at: int| self.named_at(name@, at);
                self.lemma_slot(name@, at);
            }
            return false;
        }
        let ghost before = *self;
        self.names.push(name);
        self.states.push(GitState::new(root));
        proof {
            let n = before.names@.len() as int;
            assert forall|i: int, j: int| 0 <= i < j < self.names@.len() implies (
            #[trigger] self.names@[i])@ != (#[trigger] self.names@[j])@ by {
                if j == n {
                    assert(!before.named_at(name@, i));
                } else {
                    assert(before.names@[i]@ != before.names@[j]@);
                }
            }
            assert(self.named_at(name@, n));
            let want = extended(before@, name@, root@);
            assert forall|key: Seq<char>| self@.contains_key(key) == want.contains_key(key) by {
                if before@.contains_key(key) {
                    let at = choose|at: int| before.named_at(key, at);
                    assert(self.named_at(key, at));
                }
                if self@.contains_key(key) && key != name@ {
                    let at = choose|at: int| self.named_at(key, at);
                    assert(before.named_at(key, at));
                }
            }
            assert forall|key: Seq<char>| self@.contains_key(key) implies self@[key] == want[key] by {
                if key == name@ {
                    self.lemma_slot(key, n);
                } else {
                    let at = choose|at: int| self.named_at(key, at);
                    assert(before.named_at(key, at));
                    self.lemma_slot(key, at);
                    before.lemma_slot(key, at);
                }
            }
            assert(self@ =~= want);
        }
        true
    }

    /// Changes who has the volume at `at`.
    fn set_holder(&mut self, at: usize, name: Ghost<Seq<char>>, holder: Option<u64>, grants: u64)
        requires
            old(self).wf(),
            old(self).named_at(name@, at as int),
            holder matches Some(ticket) ==> 1 <= ticket <= grants,
        ensures
            final(self).wf(),
            final(self)@ == old(self)@.insert(
                name@,
                Slot { root: old(self)@[name@].root, holder, grants },
            ),
    {
        let ghost before = *self;
        let path = self.states[at].repo_path.clone();
        self.states.set(at, GitState { repo_path: path, holder, grants });
        proof {
            before.lemma_slot(name@, at as int);
            let want = before@.insert(name@, Slot { root: before@[name@].root, holder, grants });
            assert forall|key: Seq<char>, k: int| self.named_at(key, k) == before.named_at(
                key,
                k,
            ) by {}
            assert forall|i: int| 0 <= i < self.states@.len() implies ((
            #[trigger] self.states@[i]).holder matches Some(ticket) ==> 1 <= ticket
                <= self.states@[i].grants) by {
                if i != at {
                    assert(self.states@[i] == before.states@[i]);
                }
            }
            assert forall|key: Seq<char>| self@.contains_key(key) == want.contains_key(key) by {
                if before@.contains_key(key) {
                    let k = choose|k: int| before.named_at(key, k);
                    assert(self.named_at(key, k));
                }
                if self@.contains_key(key) {
                    let k = choose|k: int| self.named_at(key, k);
                    assert(before.named_at(key, k));
                }
            }
            assert forall|key: Seq<char>| self@.contains_key(key) implies self@[key] == want[key] by {
                let k = choose|k: int| self.named_at(key, k);
                assert(before.named_at(key, k));
                self.lemma_slot(key, k);
                before.lemma_slot(key, k);
            }
            assert(self@ =~= want);
        }
    }

    /// Asks for the volume `name` on behalf of an operation. The volume is
    /// granted where it is known and no operation is at work on it.
    pub fn try_acquire(&mut self, name: &str) -> (answer: Admission)
        requires
            old(self).wf(),
        ensures
            final(self).wf(),
            answer == admission_of(old(self)@, name@),
            final(self)@ == acquired(old(self)@, name@),
    {
        match self.find(name) {
            None => Admission::Unknown,
            Some(at) => {
                proof {
                    self.lemma_slot(name@, at as int);
                }
                let grants = self.states[at].grants;
                if self.states[at].holder.is_some() || grants == u64::MAX {
                    Admission::Wait
                } else {
                    let ticket = grants + 1;
                    self.set_holder(at, Ghost(name@), Some(ticket), ticket);
                    Admission::Granted(ticket)
                }
            },
        }
    }

    /// Gives the volume `name` back when the operation that got it under
    /// `ticket` is over, however it ended. Any other ticket changes nothing.
    pub fn release(&mut self, name: &str, ticket: u64) -> (freed: bool)
        requires
            old(self).wf(),
        ensures
            final(self).wf(),
            freed == holds(old(self)@, name@, ticket),
            final(self)@ == released(old(self)@, name@, ticket),
    {
        match self.find(name) {
            None => false,
            Some(at) => {
                proof {
                    self.lemma_slot(name@, at as int);
                }
                match self.states[at].holder {
                    Some(held) => {
                        if held == ticket {
                            let grants = self.states[at].grants;
                            self.set_holder(at, Ghost(name@), None, grants);
                            true
                        } else {
                            false
                        }
                    },
                    None => false,
                }
            },
        }
    }
}

/// Something that happens to the volumes.
pub enum Change {
    /// An operation asks for a volume.
    Acquire(Seq<char>),
    /// A volume is given back under a ticket.
    Release(Seq<char>, u64),
    /// A volume is made known, with its root.
    Add(Seq<char>, Seq<char>),
}

/// The volumes after a change.
pub open spec fn after(volumes: Map<Seq<char>, Slot>, change: Change) -> Map<Seq<char>, Slot> {
    match change {
        Change::Acquire(name) => acquired(volumes, name),
        Change::Release(name, ticket) => released(volumes, name, ticket),
        Change::Add(name, root) => extended(volumes, name, root),
    }
}

/// The volumes after a series of changes.
pub open spec fn after_all(volumes: Map<Seq<char>, Slot>, changes: Seq<Change>) -> Map<
    Seq<char>,
    Slot,
>
    decreases changes.len(),
{
    if changes.len() == 0 {
        volumes
    } else {
        after(after_all(volumes, changes.drop_last()), changes.last())
    }
}

/// While an operation has a volume, no other gets it: a granted volume is
/// the operation's, whoever asks next has to wait and changes nothing, and
/// the volume is free again once it has been given back under its ticket.
pub proof fn law_one_operation_per_volume(volumes: Map<Seq<char>, Slot>, name: Seq<char>)
    ensures
        admission_of(volumes, name) matches Admission::Granted(ticket) ==> {
            &&& holds(acquired(volumes, name), name, ticket)
            &&& admission_of(acquired(volumes, name), name) is Wait
            &&& !volumes[name].holder.is_some()
            &&& !holds(released(acquired(volumes, name), name, ticket), name, ticket)
            &&& released(acquired(volumes, name), name, ticket)[name].holder is None
        },
        admission_of(volumes, name) is Wait ==> acquired(volumes, name) == volumes,
        admission_of(volumes, name) is Unknown ==> acquired(volumes, name) == volumes,
        volumes.contains_key(name) && volumes[name].holder is Some ==> admission_of(volumes, name)
            is Wait,
{
}

/// The operation that has a volume keeps it until its own ticket gives it
/// back: whatever else happens meanwhile, on this volume or on others, the
/// volume stays with the operation, and every operation that asks for it
/// has to wait.
pub proof fn law_operations_take_turns(
    volumes: Map<Seq<char>, Slot>,
    name: Seq<char>,
    ticket: u64,
    changes: Seq<Change>,
)
    requires
        holds(volumes, name, ticket),
        forall|i: int| 0 <= i < changes.len() ==> changes[i] != Change::Release(name, ticket),
    ensures
        holds(after_all(volumes, changes), name, ticket),
        after_all(volumes, changes)[name] == volumes[name],
        admission_of(after_all(volumes, changes), name) is Wait,
    decreases changes.len(),
{
    if changes.len() > 0 {
        let earlier = changes.drop_last();
        assert forall|i: int| 0 <= i < earlier.len() implies earlier[i] != Change::Release(
            name,
            ticket,
        ) by {
            assert(earlier[i] == changes[i]);
        }
        law_operations_take_turns(volumes, name, ticket, earlier);
        assert(changes.last() == changes[changes.len() - 1]);
    }
}

/// A ticket is granted once: the ticket under which a volume is granted is
/// none that the volume granted before, so that no operation that is over
/// can give the volume back for the one that has it now.
pub proof fn law_tickets_are_fresh(volumes: Map<Seq<char>, Slot>, name: Seq<char>, earlier: u64)
    requires
        tickets_granted(volumes),
        volumes.contains_key(name),
        earlier <= volumes[name].grants,
    ensures
        admission_of(volumes, name) matches Admission::Granted(ticket) ==> ticket != earlier
            && released(acquired(volumes, name), name, earlier) == acquired(volumes, name),
        tickets_granted(acquired(volumes, name)),
        tickets_granted(released(volumes, name, earlier)),
        acquired(volumes, name)[name].grants >= volumes[name].grants,
{
    assert forall|n: Seq<char>, t: u64| #[trigger]
        holds(acquired(volumes, name), n, t) implies 1 <= t <= acquired(
        volumes,
        name,
    )[n].grants by {
        if n != name {
            assert(holds(volumes, n, t));
        } else if !(admission_of(volumes, name) is Granted) {
            assert(holds(volumes, n, t));
        }
    }
    assert forall|n: Seq<char>, t: u64| #[trigger]
        holds(released(volumes, name, earlier), n, t) implies 1 <= t <= released(
        volumes,
        name,
        earlier,
    )[n].grants by {
        assert(holds(volumes, n, t));
    }
}

/// Volumes do not affect each other: what happens to one volume neither
/// changes another nor the answer that an operation on the other gets.
pub proof fn law_volumes_are_independent(
    volumes: Map<Seq<char>, Slot>,
    name: Seq<char>,
    other: Seq<char>,
    ticket: u64,
)
    requires
        name != other,
    ensures
        admission_of(acquired(volumes, other), name) == admission_of(volumes, name),
        admission_of(released(volumes, other, ticket), name) == admission_of(volumes, name),
        acquired(volumes, other).contains_key(name) == volumes.contains_key(name),
        released(volumes, other, ticket).contains_key(name) == volumes.contains_key(name),
        volumes.contains_key(name) ==> acquired(volumes, other)[name] == volumes[name]
            && released(volumes, other, ticket)[name] == volumes[name],
        acquired(acquired(volumes, other), name) == acquired(acquired(volumes, name), other),
{
    assert(acquired(acquired(volumes, other), name) =~= acquired(acquired(volumes, name), other));
}

} // verus!
