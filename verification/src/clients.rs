//! The clients that are connected to the signaling server.
use vstd::prelude::*;

use crate::identity::Identity;
use crate::signaling::client_view;

verus! {

/// A connected client: what it is known by, and how to reach it.
struct Entry<P, T> {
    client: (P, Option<usize>),
    remote: T,
}

/// The connected clients, viewed as a map from what each is known by to how it
/// is reached. A peer that listens is known by itself alone; one that dials is
/// known by itself and the counter of the request.
pub struct ClientsMap<P, T> {
    entries: Vec<Entry<P, T>>,
}

impl<P: View, T> ClientsMap<P, T> {
    spec fn key_at(self, i: int) -> (P::V, Option<usize>) {
        client_view(self.entries@[i].client)
    }

    spec fn holds_at(self, i: int, key: (P::V, Option<usize>)) -> bool {
        0 <= i < self.entries@.len() && self.key_at(i) == key
    }

    /// No two clients are known by the same.
    pub closed spec fn well_formed(self) -> bool {
        forall|i: int, j: int|
            0 <= i < j < self.entries@.len() ==> #[trigger] self.key_at(i) != #[trigger] self.key_at(
                j,
            )
    }
}

impl<P: View, T> View for ClientsMap<P, T> {
    type V = Map<(P::V, Option<usize>), T>;

    closed spec fn view(&self) -> Map<(P::V, Option<usize>), T> {
        Map::new(
            |key: (P::V, Option<usize>)| exists|i: int| self.holds_at(i, key),
            |key: (P::V, Option<usize>)|
                self.entries@[choose|i: int| self.holds_at(i, key)].remote,
        )
    }
}

impl<P: Identity, T> ClientsMap<P, T> {
    proof fn lemma_holds(self, i: int, key: (P::V, Option<usize>))
        requires
            self.well_formed(),
            self.holds_at(i, key),
        ensures
            self@.contains_key(key),
            self@[key] == self.entries@[i].remote,
    {
        let j = choose|j: int| self.holds_at(j, key);
        assert(self.holds_at(j, key));
        assert(self.key_at(i) == self.key_at(j));
    }

    /// No client is connected.
    pub fn new() -> (clients: ClientsMap<P, T>)
        ensures
            clients.well_formed(),
            clients@ == Map::<(P::V, Option<usize>), T>::empty(),
    {
        let clients = ClientsMap { entries: Vec::new() };
        assert(clients@ =~= Map::<(P::V, Option<usize>), T>::empty());
        clients
    }

    fn position(&self, client: &(P, Option<usize>)) -> (position: Option<usize>)
        requires
            self.well_formed(),
        ensures
            match position {
                Some(i) => self.holds_at(i as int, client_view(*client)),
                None => !self@.contains_key(client_view(*client)),
            },
    {
        let mut i: usize = 0;
        while i < self.entries.len()
            invariant
                i <= self.entries.len(),
                forall|k: int| 0 <= k < i ==> #[trigger] self.key_at(k) != client_view(*client),
            decreases self.entries.len() - i,
        {
            let entry = &self.entries[i];
            if entry.client.1 == client.1 && entry.client.0.same(&client.0) {
                assert(self.key_at(i as int) == client_view(*client));
                return Some(i);
            }
            assert(self.key_at(i as int) != client_view(*client));
            i = i + 1;
        }
        None
    }

    /// How a client is reached, if it is connected.
    pub fn get(&self, client: &(P, Option<usize>)) -> (remote: Option<&T>)
        requires
            self.well_formed(),
        ensures
            match remote {
                Some(t) => self@.contains_key(client_view(*client)) && *t
                    == self@[client_view(*client)],
                None => !self@.contains_key(client_view(*client)),
            },
    {
        match self.position(client) {
            Some(i) => {
                proof {
                    self.lemma_holds(i as int, client_view(*client));
                }
                Some(&self.entries[i].remote)
            },
            None => None,
        }
    }

    /// Connects a client. If one that is known by the same was connected, it is
    /// replaced, and given back.
    pub fn insert(&mut self, client: (P, Option<usize>), remote: T) -> (replaced: Option<T>)
        requires
            old(self).well_formed(),
        ensures
            final(self).well_formed(),
            final(self)@ == old(self)@.insert(client_view(client), remote),
            match replaced {
                Some(t) => old(self)@.contains_key(client_view(client)) && t
                    == old(self)@[client_view(client)],
                None => !old(self)@.contains_key(client_view(client)),
            },
    {
        let replaced = self.remove(&client);
        let ghost before = *self;
        let ghost key = client_view(client);
        self.entries.push(Entry { client, remote });
        proof {
            let n = before.entries@.len() as int;
            assert(forall|i: int| 0 <= i < n ==> #[trigger] self.key_at(i) == before.key_at(i));
            assert(self.key_at(n) == key);
            assert forall|i: int, j: int| 0 <= i < j < self.entries@.len() implies #[trigger] self.key_at(
                i,
            ) != #[trigger] self.key_at(j) by {
                assert(before.key_at(i) == self.key_at(i));
                if j == n {
                    if before.key_at(i) == key {
                        assert(before.holds_at(i, key));
                        before.lemma_holds(i, key);
                        assert(!before@.contains_key(key));
                    }
                } else {
                    assert(before.key_at(j) == self.key_at(j));
                }
            }
            assert(self.well_formed());
            assert forall|k: (P::V, Option<usize>)| before@.insert(key, remote).contains_key(k)
                implies #[trigger] self@.contains_key(k) by {
                if k == key {
                    self.lemma_holds(n, key);
                } else {
                    let i = choose|i: int| before.holds_at(i, k);
                    assert(before.holds_at(i, k));
                    assert(self.key_at(i) == before.key_at(i));
                    self.lemma_holds(i, k);
                }
            }
            assert forall|k: (P::V, Option<usize>)| #[trigger] self@.contains_key(k) implies before@.insert(
                key,
                remote,
            ).contains_key(k) && self@[k] == before@.insert(key, remote)[k] by {
                let i = choose|i: int| self.holds_at(i, k);
                assert(self.holds_at(i, k));
                self.lemma_holds(i, k);
                if i < n {
                    assert(self.key_at(i) == before.key_at(i));
                    assert(before.holds_at(i, k));
                    before.lemma_holds(i, k);
                }
            }
            assert(self@ =~= before@.insert(key, remote));
            assert(before@.insert(key, remote) =~= old(self)@.insert(key, remote));
        }
        replaced
    }

    /// Disconnects a client, and gives back how it was reached.
    pub fn remove(&mut self, client: &(P, Option<usize>)) -> (removed: Option<T>)
        requires
            old(self).well_formed(),
        ensures
            final(self).well_formed(),
            final(self)@ == old(self)@.remove(client_view(*client)),
            match removed {
                Some(t) => old(self)@.contains_key(client_view(*client)) && t
                    == old(self)@[client_view(*client)],
                None => !old(self)@.contains_key(client_view(*client)),
            },
    {
        let ghost key = client_view(*client);
        match self.position(client) {
            None => {
                assert(self@ =~= self@.remove(key));
                None
            },
            Some(at) => {
                let ghost before = *self;
                let entry = self.entries.remove(at);
                proof {
                    before.lemma_holds(at as int, key);
                    let n = before.entries@.len() as int;
                    assert(forall|i: int| 0 <= i < at ==> #[trigger] self.key_at(i) == before.key_at(i));
                    assert(forall|i: int|
                        at <= i < n - 1 ==> #[trigger] self.key_at(i) == before.key_at(i + 1));
                    assert(self.well_formed());
                    assert forall|k: (P::V, Option<usize>)| before@.remove(key).contains_key(k)
                        implies #[trigger] self@.contains_key(k) by {
                        let i = choose|i: int| before.holds_at(i, k);
                        assert(before.holds_at(i, k));
                        if i < at {
                            assert(self.key_at(i) == before.key_at(i));
                            self.lemma_holds(i, k);
                        } else {
                            assert(self.key_at(i - 1) == before.key_at(i));
                            self.lemma_holds(i - 1, k);
                        }
                    }
                    assert forall|k: (P::V, Option<usize>)| #[trigger] self@.contains_key(k) implies before@.remove(
                        key,
                    ).contains_key(k) && self@[k] == before@.remove(key)[k] by {
                        let i = choose|i: int| self.holds_at(i, k);
                        assert(self.holds_at(i, k));
                        self.lemma_holds(i, k);
                        let j = if i < at {
                            i
                        } else {
                            i + 1
                        };
                        assert(self.key_at(i) == before.key_at(j));
                        assert(before.holds_at(j, k));
                        before.lemma_holds(j, k);
                        assert(before.key_at(j) != before.key_at(at as int));
                    }
                    assert(self@ =~= before@.remove(key));
                }
                Some(entry.remote)
            },
        }
    }
}

/// What is put in is what is found: a client is reached as it was connected
/// last, until it is disconnected, and then not at all.
pub proof fn law_clients_are_found<P: Identity, T>(
    joined: &mut ClientsMap<P, T>,
    left: &mut ClientsMap<P, T>,
    client: (P, Option<usize>),
    sought: (P, Option<usize>),
    remote: T,
    replaced: Option<T>,
    removed: Option<T>,
    after_joining: Option<&T>,
    after_leaving: Option<&T>,
)
    requires
        sought.0@ == client.0@ && sought.1 == client.1,
        call_ensures(ClientsMap::<P, T>::insert, (joined, client, remote), replaced),
        call_ensures(ClientsMap::<P, T>::get, (&*final(joined), &sought), after_joining),
        *left == *final(joined),
        call_ensures(ClientsMap::<P, T>::remove, (left, &sought), removed),
        call_ensures(ClientsMap::<P, T>::get, (&*final(left), &sought), after_leaving),
    ensures
        after_joining matches Some(t) && *t == remote,
        removed == Some(remote),
        after_leaving is None,
{
}

/// Others are reached as before, whoever comes or goes. A client is another one
/// if either its name or its counter is another.
pub proof fn law_other_clients_stay<P: Identity, T>(
    joined: &mut ClientsMap<P, T>,
    left: &mut ClientsMap<P, T>,
    client: (P, Option<usize>),
    other: (P, Option<usize>),
    remote: T,
    replaced: Option<T>,
    removed: Option<T>,
    before: [Option<&T>; 2],
    after: [Option<&T>; 2],
)
    requires
        other.0@ != client.0@ || other.1 != client.1,
        call_ensures(ClientsMap::<P, T>::get, (&*joined, &other), before[0]),
        call_ensures(ClientsMap::<P, T>::insert, (joined, client, remote), replaced),
        call_ensures(ClientsMap::<P, T>::get, (&*final(joined), &other), after[0]),
        call_ensures(ClientsMap::<P, T>::get, (&*left, &other), before[1]),
        call_ensures(ClientsMap::<P, T>::remove, (left, &client), removed),
        call_ensures(ClientsMap::<P, T>::get, (&*final(left), &other), after[1]),
    ensures
        after[0] == before[0],
        after[1] == before[1],
{
}

/// At first nobody is connected.
pub proof fn law_nobody_is_connected_at_first<P: Identity, T>(
    clients: ClientsMap<P, T>,
    client: (P, Option<usize>),
    remote: Option<&T>,
)
    requires
        call_ensures(ClientsMap::<P, T>::new, (), clients),
        call_ensures(ClientsMap::<P, T>::get, (&clients, &client), remote),
    ensures
        remote is None,
{
}

} // verus!
