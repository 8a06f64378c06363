//! The connection registry: which keys have a live session, and the sending
//! half of each session's channel.

use crate::channel::{offer, Offer};
use tokio::sync::mpsc::Sender;
use vstd::prelude::*;

verus! {

/// Why a registration was refused.
#[derive(Clone, Copy, Debug, PartialEq, Eq, Structural)]
pub enum RegistryError {
    /// The key already has a live session.
    AlreadyConnected,
}

/// Why a push was not delivered.
#[derive(Clone, Copy, Debug, PartialEq, Eq, Structural)]
pub enum DeliveryError {
    /// No live session is registered under the key.
    NoSuchConnectedClient,
    /// The session's channel holds as many payloads as it can.
    ChannelFull,
}

/// One registered session: its key and the sending half of its channel.
pub struct Client {
    client_key: String,
    client_handler: Sender<String>,
}

/// The registered sessions, at most one per key.
pub struct Registry {
    clients: Vec<Client>,
}

/// The map that a list of registered sessions stands for. A later entry
/// would shadow an earlier one of the same key; a registry never holds two.
spec fn clients_map(clients: Seq<Client>) -> Map<Seq<char>, Sender<String>>
    decreases clients.len(),
{
    if clients.len() == 0 {
        Map::empty()
    } else {
        clients_map(clients.drop_last()).insert(
            clients.last().client_key@,
            clients.last().client_handler,
        )
    }
}

/// No two entries share a key.
spec fn distinct_keys(clients: Seq<Client>) -> bool {
    forall|i: int, j: int|
        0 <= i < j < clients.len() ==> clients[i].client_key@ != clients[j].client_key@
}

/// How many entries of a list carry `key`.
spec fn entries_with_key(clients: Seq<Client>, key: Seq<char>) -> nat
    decreases clients.len(),
{
    if clients.len() == 0 {
        0
    } else {
        let before = entries_with_key(clients.drop_last(), key);
        if clients.last().client_key@ == key {
            before + 1
        } else {
            before
        }
    }
}

proof fn lemma_front_distinct(clients: Seq<Client>)
    requires
        distinct_keys(clients),
        clients.len() > 0,
    ensures
        distinct_keys(clients.drop_last()),
{
    let front = clients.drop_last();
    assert forall|a: int, b: int| 0 <= a < b < front.len() implies front[a].client_key@
        != front[b].client_key@ by {
        assert(clients[a].client_key@ != clients[b].client_key@);
    }
}

proof fn lemma_at_most_one_entry(clients: Seq<Client>, key: Seq<char>)
    requires
        distinct_keys(clients),
    ensures
        entries_with_key(clients, key) == if clients_map(clients).dom().contains(key) {
            1nat
        } else {
            0nat
        },
    decreases clients.len(),
{
    if clients.len() > 0 {
        let front = clients.drop_last();
        lemma_front_distinct(clients);
        lemma_at_most_one_entry(front, key);
        lemma_map_domain(front, key);
    }
}

proof fn lemma_map_of_push(clients: Seq<Client>, client: Client)
    ensures
        clients_map(clients.push(client)) == clients_map(clients).insert(
            client.client_key@,
            client.client_handler,
        ),
{
    assert(clients.push(client).drop_last() =~= clients);
}

proof fn lemma_map_domain(clients: Seq<Client>, key: Seq<char>)
    ensures
        clients_map(clients).dom().contains(key) <==> exists|i: int|
            0 <= i < clients.len() && #[trigger] clients[i].client_key@ == key,
        clients_map(clients).dom().finite(),
    decreases clients.len(),
{
    if clients.len() > 0 {
        let front = clients.drop_last();
        lemma_map_domain(front, key);
        if clients_map(front).dom().contains(key) {
            let i = choose|i: int| 0 <= i < front.len() && #[trigger] front[i].client_key@ == key;
            assert(clients[i].client_key@ == key);
        }
        if exists|i: int| 0 <= i < clients.len() && #[trigger] clients[i].client_key@ == key {
            let i = choose|i: int| 0 <= i < clients.len() && #[trigger] clients[i].client_key@ == key;
            if i < front.len() {
                assert(front[i].client_key@ == key);
            }
        }
    }
}

proof fn lemma_map_value(clients: Seq<Client>, i: int)
    requires
        distinct_keys(clients),
        0 <= i < clients.len(),
    ensures
        clients_map(clients).dom().contains(clients[i].client_key@),
        clients_map(clients)[clients[i].client_key@] == clients[i].client_handler,
    decreases clients.len(),
{
    let front = clients.drop_last();
    if i < clients.len() - 1 {
        lemma_front_distinct(clients);
        lemma_map_value(front, i);
    }
}

proof fn lemma_map_len(clients: Seq<Client>)
    requires
        distinct_keys(clients),
    ensures
        clients_map(clients).dom().len() == clients.len(),
    decreases clients.len(),
{
    if clients.len() > 0 {
        let front = clients.drop_last();
        lemma_front_distinct(clients);
        lemma_map_len(front);
        lemma_map_domain(front, clients.last().client_key@);
    }
}

/// What the pusher is told for each thing that can become of a payload
/// offered to the channel of a registered session. A channel whose receiving
/// half is gone belongs to a session that has ended.
pub open spec fn delivery_of(offer: Offer) -> Result<(), DeliveryError> {
    match offer {
        Offer::Accepted => Ok(()),
        Offer::Full => Err(DeliveryError::ChannelFull),
        Offer::Closed => Err(DeliveryError::NoSuchConnectedClient),
    }
}

/// Turns what became of an offered payload into the answer for the pusher.
pub fn delivery_result(offer: Offer) -> (answer: Result<(), DeliveryError>)
    ensures
        answer == delivery_of(offer),
{
    match offer {
        Offer::Accepted => Ok(()),
        Offer::Full => Err(DeliveryError::ChannelFull),
        Offer::Closed => Err(DeliveryError::NoSuchConnectedClient),
    }
}

impl View for Registry {
    type V = Map<Seq<char>, Sender<String>>;

    /// The registry as a map from each registered key to the sending half
    /// of that session's channel.
    closed spec fn view(&self) -> Map<Seq<char>, Sender<String>> {
        clients_map(self.clients@)
    }
}

impl Registry {
    #[verifier::type_invariant]
    spec fn well_formed(&self) -> bool {
        distinct_keys(self.clients@)
    }

    /// A registry without sessions.
    pub fn new() -> (registry: Registry)
        ensures
            registry@ == Map::<Seq<char>, Sender<String>>::empty(),
    {
        Registry { clients: Vec::new() }
    }

    /// Moves the entries out and leaves the registry empty.
    fn take_clients(&mut self) -> (clients: Vec<Client>)
        ensures
            clients@ == old(self).clients@,
            distinct_keys(clients@),
    {
        proof {
            use_type_invariant(&*self);
        }
        let mut taken = Registry::new();
        core::mem::swap(self, &mut taken);
        taken.clients
    }

    /// Position of the entry of `key`, if there is one.
    fn position(&self, key: &String) -> (found: Option<usize>)
        ensures
            match found {
                Some(i) => i < self.clients@.len() && self.clients@[i as int].client_key@ == key@,
                None => forall|i: int|
                    0 <= i < self.clients@.len() ==> self.clients@[i].client_key@ != key@,
            },
    {
        let mut i: usize = 0;
        while i < self.clients.len()
            invariant
                i <= self.clients@.len(),
                forall|j: int| 0 <= j < i ==> self.clients@[j].client_key@ != key@,
            decreases self.clients@.len() - i,
        {
            if self.clients[i].client_key == *key {
                return Some(i);
            }
            i = i + 1;
        }
        None
    }

    /// Whether a session is registered under `key`.
    pub fn contains(&self, key: &str) -> (present: bool)
        ensures
            present == self@.dom().contains(key@),
    {
        let wanted = key.to_owned();
        let found = self.position(&wanted);
        proof {
            lemma_map_domain(self.clients@, key@);
        }
        found.is_some()
    }

    /// Number of registered sessions.
    pub fn len(&self) -> (count: usize)
        ensures
            self@.dom().finite(),
            count == self@.dom().len(),
    {
        proof {
            use_type_invariant(self);
            lemma_map_len(self.clients@);
            lemma_map_domain(self.clients@, Seq::empty());
        }
        self.clients.len()
    }

    /// How many entries the registry holds under `key`.
    pub closed spec fn entries_under(&self, key: Seq<char>) -> nat {
        entries_with_key(self.clients@, key)
    }

    /// Counts the sessions registered under `key`: one if the key is
    /// registered, none if it is not.
    pub fn count(&self, key: &str) -> (count: usize)
        ensures
            count == self.entries_under(key@),
            count == if self@.dom().contains(key@) {
                1nat
            } else {
                0nat
            },
    {
        let wanted = key.to_owned();
        let mut count: usize = 0;
        let mut i: usize = 0;
        while i < self.clients.len()
            invariant
                i <= self.clients@.len(),
                wanted@ == key@,
                count <= i,
                count == entries_with_key(self.clients@.subrange(0, i as int), key@),
            decreases self.clients@.len() - i,
        {
            proof {
                assert(self.clients@.subrange(0, i + 1).drop_last() =~= self.clients@.subrange(
                    0,
                    i as int,
                ));
            }
            if self.clients[i].client_key == wanted {
                count = count + 1;
            }
            i = i + 1;
        }
        proof {
            use_type_invariant(self);
            assert(self.clients@.subrange(0, i as int) =~= self.clients@);
            lemma_at_most_one_entry(self.clients@, key@);
        }
        count
    }

    /// The sending half registered under `key`, if a session is.
    pub fn lookup(&self, key: &str) -> (handle: Option<&Sender<String>>)
        ensures
            handle is Some == self@.dom().contains(key@),
            handle matches Some(h) ==> *h == self@[key@],
    {
        let wanted = key.to_owned();
        proof {
            use_type_invariant(self);
            lemma_map_domain(self.clients@, key@);
        }
        match self.position(&wanted) {
            Some(i) => {
                proof {
                    lemma_map_value(self.clients@, i as int);
                }
                Some(&self.clients[i].client_handler)
            },
            None => None,
        }
    }

    /// Registers a session under `key`. A key that already has a live
    /// session is refused, and the registry stays as it was.
    pub fn insert(&mut self, key: String, handle: Sender<String>) -> (done: Result<
        (),
        RegistryError,
    >)
        ensures
            old(self)@.dom().contains(key@) ==> done == Err::<(), RegistryError>(
                RegistryError::AlreadyConnected,
            ) && final(self)@ == old(self)@,
            !old(self)@.dom().contains(key@) ==> done is Ok && final(self)@ == old(self)@.insert(
                key@,
                handle,
            ),
    {
        proof {
            use_type_invariant(&*self);
            lemma_map_domain(self.clients@, key@);
        }
        match self.position(&key) {
            Some(_) => Err(RegistryError::AlreadyConnected),
            None => {
                let client = Client { client_key: key, client_handler: handle };
                let mut clients = self.take_clients();
                proof {
                    lemma_map_of_push(clients@, client);
                }
                clients.push(client);
                *self = Registry { clients };
                Ok(())
            },
        }
    }

    /// Removes the session registered under `key`, if there is one.
    pub fn remove(&mut self, key: &str)
        ensures
            final(self)@ == old(self)@.remove(key@),
    {
        let wanted = key.to_owned();
        proof {
            use_type_invariant(&*self);
        }
        match self.position(&wanted) {
            Some(i) => {
                let mut clients = self.take_clients();
                proof {
                    lemma_map_of_removed(clients@, i as int);
                }
                clients.remove(i);
                *self = Registry { clients };
            },
            None => {
                proof {
                    lemma_map_domain(self.clients@, key@);
                }
            },
        }
    }

    /// Pushes `payload` to the session registered under `key`. The payload
    /// is offered to the session's channel without waiting.
    pub fn send_to(&self, key: &str, payload: String) -> (answer: Result<(), DeliveryError>)
        ensures
            !self@.dom().contains(key@) ==> answer == Err::<(), DeliveryError>(
                DeliveryError::NoSuchConnectedClient,
            ),
    {
        match self.lookup(key) {
            Some(handle) => delivery_result(offer(handle, payload)),
            None => Err(DeliveryError::NoSuchConnectedClient),
        }
    }
}

proof fn lemma_map_of_removed(clients: Seq<Client>, i: int)
    requires
        distinct_keys(clients),
        0 <= i < clients.len(),
    ensures
        distinct_keys(clients.remove(i)),
        clients_map(clients.remove(i)) == clients_map(clients).remove(clients[i].client_key@),
    decreases clients.len(),
{
    let rest = clients.remove(i);
    assert forall|a: int, b: int| 0 <= a < b < rest.len() implies rest[a].client_key@
        != rest[b].client_key@ by {
        let a0 = if a < i { a } else { a + 1 };
        let b0 = if b < i { b } else { b + 1 };
        assert(clients[a0].client_key@ != clients[b0].client_key@);
    }
    let front = clients.drop_last();
    let key = clients[i].client_key@;
    if i == clients.len() - 1 {
        assert(rest =~= front);
        lemma_map_domain(front, key);
        assert(clients_map(front) =~= clients_map(clients).remove(key));
    } else {
        lemma_front_distinct(clients);
        lemma_map_of_removed(front, i);
        assert(rest.drop_last() =~= front.remove(i));
        assert(clients_map(rest) =~= clients_map(clients).remove(key));
    }
}

} // verus!
