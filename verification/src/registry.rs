//! The registry of live connections and the fan-out of payloads to them.
//!
//! The registry is the one authority on who is connected. It takes the three
//! operations `join`, `leave` and `broadcast` one at a time and answers each
//! with a [`Dispatch`]: the payload, encoded once, and the handles it is to be
//! pushed to. Pushing is the caller's part; a push that fails is the caller's
//! to swallow.

use crate::clock::get_timestamp;
use crate::codec::{encode, encoded};
use crate::message::{system_notice, Action, Message};
use crate::text::same_text;
use vstd::prelude::*;

verus! {

struct Entry<H> {
    identity: String,
    handle: H,
}

/// The live connections: each identity with the handle that reaches it.
///
/// The entries are kept in order of arrival, so that a dispatch lists the
/// handles in an order that its contract can name; as a mapping the registry
/// is read through its view.
pub struct Registry<H> {
    entries: Vec<Entry<H>>,
}

/// What one operation asks the caller to send: one payload, and a clone of
/// the handle of everyone who is to get it.
#[derive(Debug)]
pub struct Dispatch<H> {
    pub payload: String,
    pub recipients: Vec<H>,
}

spec fn ids<H>(entries: Seq<Entry<H>>) -> Seq<Seq<char>> {
    entries.map_values(|entry: Entry<H>| entry.identity@)
}

spec fn mapping<H>(entries: Seq<Entry<H>>) -> Map<Seq<char>, H> {
    Map::new(
        |identity: Seq<char>| ids(entries).contains(identity),
        |identity: Seq<char>| entries[ids(entries).index_of(identity)].handle,
    )
}

proof fn lemma_mapping_at<H>(entries: Seq<Entry<H>>, i: int)
    requires
        ids(entries).no_duplicates(),
        0 <= i < entries.len(),
    ensures
        ids(entries).contains(ids(entries)[i]),
        ids(entries).index_of(ids(entries)[i]) == i,
        mapping(entries).contains_key(ids(entries)[i]),
        mapping(entries)[ids(entries)[i]] == entries[i].handle,
{
    let names = ids(entries);
    assert(names[i] == names[i]);
    assert(names.contains(names[i]));
}

proof fn lemma_mapping_push<H>(entries: Seq<Entry<H>>, entry: Entry<H>)
    requires
        ids(entries).no_duplicates(),
        !ids(entries).contains(entry.identity@),
    ensures
        ids(entries.push(entry)) == ids(entries).push(entry.identity@),
        ids(entries.push(entry)).no_duplicates(),
        mapping(entries.push(entry)) == mapping(entries).insert(entry.identity@, entry.handle),
{
    let grown = entries.push(entry);
    assert(ids(grown) =~= ids(entries).push(entry.identity@));
    assert(ids(grown).no_duplicates()) by {
        assert forall|i: int, j: int| 0 <= i < ids(grown).len() && 0 <= j < ids(grown).len() && i != j
            implies ids(grown)[i] != ids(grown)[j] by {
            if i < entries.len() {
                assert(ids(entries)[i] == ids(grown)[i]);
            }
            if j < entries.len() {
                assert(ids(entries)[j] == ids(grown)[j]);
            }
        }
    }
    let expected = mapping(entries).insert(entry.identity@, entry.handle);
    assert forall|identity: Seq<char>| mapping(grown).contains_key(identity)
        <==> expected.contains_key(identity) by {
        if ids(grown).contains(identity) {
            let k = ids(grown).index_of(identity);
            if k < entries.len() {
                assert(ids(entries)[k] == identity);
            }
        }
        if ids(entries).contains(identity) {
            let k = ids(entries).index_of(identity);
            assert(ids(grown)[k] == identity);
        }
        if identity == entry.identity@ {
            assert(ids(grown)[entries.len() as int] == identity);
        }
    }
    assert forall|identity: Seq<char>| mapping(grown).contains_key(identity)
        implies mapping(grown)[identity] == expected[identity] by {
        let k = ids(grown).index_of(identity);
        lemma_mapping_at(grown, k);
        if k < entries.len() {
            assert(ids(entries)[k] == identity);
            lemma_mapping_at(entries, k);
        }
    }
    assert(mapping(grown) =~= expected);
}

proof fn lemma_mapping_update<H>(entries: Seq<Entry<H>>, i: int, entry: Entry<H>)
    requires
        ids(entries).no_duplicates(),
        0 <= i < entries.len(),
        ids(entries)[i] == entry.identity@,
    ensures
        ids(entries.update(i, entry)) == ids(entries),
        mapping(entries.update(i, entry)) == mapping(entries).insert(entry.identity@, entry.handle),
{
    let changed = entries.update(i, entry);
    assert(ids(changed) =~= ids(entries));
    let expected = mapping(entries).insert(entry.identity@, entry.handle);
    lemma_mapping_at(entries, i);
    assert forall|identity: Seq<char>| mapping(changed).contains_key(identity)
        implies mapping(changed)[identity] == expected[identity] by {
        let k = ids(changed).index_of(identity);
        lemma_mapping_at(changed, k);
        lemma_mapping_at(entries, k);
    }
    assert(mapping(changed) =~= expected);
}

proof fn lemma_mapping_remove<H>(entries: Seq<Entry<H>>, i: int)
    requires
        ids(entries).no_duplicates(),
        0 <= i < entries.len(),
    ensures
        ids(entries.remove(i)) == ids(entries).remove(i),
        ids(entries.remove(i)).no_duplicates(),
        !ids(entries.remove(i)).contains(ids(entries)[i]),
        mapping(entries.remove(i)) == mapping(entries).remove(ids(entries)[i]),
{
    let rest = entries.remove(i);
    let gone = ids(entries)[i];
    assert(ids(rest) =~= ids(entries).remove(i));
    assert forall|k: int| 0 <= k < rest.len() implies ids(rest)[k] == ids(entries)[if k < i {
        k
    } else {
        k + 1
    }] by {}
    assert(ids(rest).no_duplicates()) by {
        assert forall|a: int, b: int| 0 <= a < ids(rest).len() && 0 <= b < ids(rest).len() && a != b
            implies ids(rest)[a] != ids(rest)[b] by {
            let a0 = if a < i { a } else { a + 1 };
            let b0 = if b < i { b } else { b + 1 };
            assert(ids(rest)[a] == ids(entries)[a0]);
            assert(ids(rest)[b] == ids(entries)[b0]);
        }
    }
    assert(!ids(rest).contains(gone)) by {
        if ids(rest).contains(gone) {
            let k = ids(rest).index_of(gone);
            let k0 = if k < i { k } else { k + 1 };
            assert(ids(rest)[k] == ids(entries)[k0]);
        }
    }
    let expected = mapping(entries).remove(gone);
    assert forall|identity: Seq<char>| mapping(rest).contains_key(identity)
        <==> expected.contains_key(identity) by {
        if ids(rest).contains(identity) {
            let k = ids(rest).index_of(identity);
            let k0 = if k < i { k } else { k + 1 };
            assert(ids(entries)[k0] == identity);
        }
        if ids(entries).contains(identity) && identity != gone {
            let k0 = ids(entries).index_of(identity);
            let k = if k0 < i { k0 } else { k0 - 1 };
            assert(ids(rest)[k] == identity);
        }
    }
    assert forall|identity: Seq<char>| mapping(rest).contains_key(identity)
        implies mapping(rest)[identity] == expected[identity] by {
        let k = ids(rest).index_of(identity);
        let k0 = if k < i { k } else { k + 1 };
        lemma_mapping_at(rest, k);
        assert(ids(entries)[k0] == identity);
        lemma_mapping_at(entries, k0);
    }
    assert(mapping(rest) =~= expected);
}

/// Whether `recipients` holds one clone of each registered handle and nothing
/// else: as many recipients as the roster has identities, the i-th a clone of
/// the handle of the i-th identity.
pub open spec fn reaches_all<H: Clone>(
    recipients: Seq<H>,
    roster: Seq<Seq<char>>,
    registered: Map<Seq<char>, H>,
) -> bool {
    &&& recipients.len() == roster.len()
    &&& forall|i: int|
        0 <= i < roster.len() ==> cloned(registered[roster[i]], #[trigger] recipients[i])
}

/// The roster after `identity` joined: it keeps its place if it was there,
/// and goes to the end if it was not.
pub open spec fn roster_joined(roster: Seq<Seq<char>>, identity: Seq<char>) -> Seq<Seq<char>> {
    if roster.contains(identity) {
        roster
    } else {
        roster.push(identity)
    }
}

/// The roster after `identity` left: the others keep their order.
pub open spec fn roster_left(roster: Seq<Seq<char>>, identity: Seq<char>) -> Seq<Seq<char>> {
    if roster.contains(identity) {
        roster.remove(roster.index_of(identity))
    } else {
        roster
    }
}

impl<H> View for Registry<H> {
    type V = Map<Seq<char>, H>;

    /// The mapping from each connected identity to its handle.
    closed spec fn view(&self) -> Map<Seq<char>, H> {
        mapping(self.entries@)
    }
}

impl<H> Registry<H> {
    /// The connected identities in the order in which a dispatch lists their
    /// handles: the order of arrival.
    pub closed spec fn roster(&self) -> Seq<Seq<char>> {
        ids(self.entries@)
    }

    /// The registry's invariant: no identity is registered twice. Every
    /// registry that a program holds satisfies it.
    #[verifier::type_invariant]
    pub closed spec fn wf(&self) -> bool {
        ids(self.entries@).no_duplicates()
    }

    /// The roster names the connected identities, each once: it and the
    /// mapping are two accounts of the same connections.
    pub proof fn lemma_roster_lists_mapping(&self)
        requires
            self.wf(),
        ensures
            self.roster().no_duplicates(),
            self@.dom() == self.roster().to_set(),
            self@.dom().finite(),
            self@.len() == self.roster().len(),
    {
        let names = ids(self.entries@);
        assert(self@.dom() =~= names.to_set());
        vstd::seq_lib::seq_to_set_is_finite(names);
        names.unique_seq_to_set();
    }

    /// A registry with nobody in it.
    pub fn new() -> (registry: Registry<H>)
        ensures
            registry.wf(),
            registry@ == Map::<Seq<char>, H>::empty(),
            registry.roster() == Seq::<Seq<char>>::empty(),
    {
        let registry = Registry { entries: Vec::new() };
        assert(registry@ =~= Map::<Seq<char>, H>::empty());
        assert(registry.roster() =~= Seq::<Seq<char>>::empty());
        registry
    }

    /// How many connections are registered.
    pub fn len(&self) -> (count: usize)
        ensures
            self.wf(),
            count == self.roster().len(),
            count == self@.len(),
    {
        proof {
            use_type_invariant(self);
            self.lemma_roster_lists_mapping();
        }
        self.entries.len()
    }

    /// Whether `identity` is registered.
    pub fn contains(&self, identity: &str) -> (present: bool)
        ensures
            present == self@.contains_key(identity@),
    {
        self.position(identity).is_some()
    }

    fn position(&self, identity: &str) -> (found: Option<usize>)
        ensures
            match found {
                Some(i) => i < self.entries.len() && ids(self.entries@)[i as int] == identity@,
                None => !ids(self.entries@).contains(identity@),
            },
    {
        let mut i: usize = 0;
        while i < self.entries.len()
            invariant
                i <= self.entries.len(),
                forall|k: int| 0 <= k < i ==> ids(self.entries@)[k] != identity@,
            decreases self.entries.len() - i,
        {
            if same_text(self.entries[i].identity.as_str(), identity) {
                return Some(i);
            }
            i += 1;
        }
        None
    }
}

impl<H: Clone> Registry<H> {
    /// Hands `payload` to everyone registered at this moment, and to nobody
    /// else: the dispatch lists a clone of each registered handle, once, in
    /// roster order.
    pub fn fan_out(&self, payload: String) -> (dispatch: Dispatch<H>)
        ensures
            self.wf(),
            dispatch.payload == payload,
            reaches_all(dispatch.recipients@, self.roster(), self@),
    {
        proof {
            use_type_invariant(self);
        }
        let mut recipients: Vec<H> = Vec::new();
        let mut i: usize = 0;
        while i < self.entries.len()
            invariant
                i <= self.entries.len(),
                recipients.len() == i,
                forall|k: int|
                    0 <= k < i ==> cloned(self.entries@[k].handle, #[trigger] recipients@[k]),
            decreases self.entries.len() - i,
        {
            let handle = self.entries[i].handle.clone();
            recipients.push(handle);
            i += 1;
        }
        proof {
            assert forall|k: int| 0 <= k < self.roster().len() implies cloned(
                self@[self.roster()[k]],
                #[trigger] recipients@[k],
            ) by {
                lemma_mapping_at(self.entries@, k);
            }
        }
        Dispatch { payload, recipients }
    }

    /// Sends an event to everyone: it is encoded once, and the payload goes
    /// to every handle registered at this moment and to no other.
    pub fn broadcast(&self, event: &Message) -> (dispatch: Dispatch<H>)
        ensures
            self.wf(),
            dispatch.payload@ == encoded(event@),
            reaches_all(dispatch.recipients@, self.roster(), self@),
    {
        self.fan_out(encode(event))
    }

    /// Registers `identity` with `handle` at the time `now`. Everyone who was
    /// registered before is told, in roster order, and the newcomer is told
    /// last, as a welcome. An identity that was already registered keeps its
    /// place in the roster and gets the new handle.
    pub fn join_at(&mut self, identity: String, handle: H, now: u64) -> (dispatch: Dispatch<H>)
        ensures
            old(self).wf(),
            final(self).wf(),
            final(self)@ == old(self)@.insert(identity@, handle),
            final(self).roster() == roster_joined(old(self).roster(), identity@),
            dispatch.payload@ == encoded(system_notice(Action::Connect, identity@, now)),
            dispatch.recipients@.len() == old(self).roster().len() + 1,
            reaches_all(dispatch.recipients@.drop_last(), old(self).roster(), old(self)@),
            cloned(handle, dispatch.recipients@.last()),
    {
        proof {
            use_type_invariant(&*self);
        }
        let notice = Message::system_at(Action::Connect, identity.clone(), now);
        let mut dispatch = self.fan_out(encode(&notice));
        let ghost told = dispatch.recipients@;
        dispatch.recipients.push(handle.clone());
        assert(dispatch.recipients@.drop_last() =~= told);
        let found = self.position(identity.as_str());
        let entry = Entry { identity, handle };
        let mut entries = Vec::new();
        std::mem::swap(&mut entries, &mut self.entries);
        match found {
            Some(i) => {
                proof {
                    lemma_mapping_update(entries@, i as int, entry);
                    assert(ids(entries@).contains(entry.identity@));
                }
                entries.set(i, entry);
            },
            None => {
                proof {
                    lemma_mapping_push(entries@, entry);
                }
                entries.push(entry);
            },
        }
        self.entries = entries;
        dispatch
    }

    /// Registers `identity` with `handle`, stamping the notice with the
    /// current time. All is as in [`Registry::join_at`], for whatever time the
    /// clock gave.
    pub fn join(&mut self, identity: String, handle: H) -> (dispatch: Dispatch<H>)
        ensures
            old(self).wf(),
            final(self).wf(),
            final(self)@ == old(self)@.insert(identity@, handle),
            final(self).roster() == roster_joined(old(self).roster(), identity@),
            exists|now: u64|
                dispatch.payload@ == encoded(
                    #[trigger] system_notice(Action::Connect, identity@, now),
                ),
            dispatch.recipients@.len() == old(self).roster().len() + 1,
            reaches_all(dispatch.recipients@.drop_last(), old(self).roster(), old(self)@),
            cloned(handle, dispatch.recipients@.last()),
    {
        let now = get_timestamp();
        let ghost name = identity@;
        let dispatch = self.join_at(identity, handle, now);
        assert(dispatch.payload@ == encoded(system_notice(Action::Connect, name, now)));
        dispatch
    }

    /// Takes `identity` off the registry at the time `now`. Everyone who is
    /// registered at this moment is told, the one who leaves included; then
    /// its entry goes. For an identity that is not registered the notice
    /// still goes out and the registry stays as it is.
    pub fn leave_at(&mut self, identity: &str, now: u64) -> (dispatch: Dispatch<H>)
        ensures
            old(self).wf(),
            final(self).wf(),
            final(self)@ == old(self)@.remove(identity@),
            final(self).roster() == roster_left(old(self).roster(), identity@),
            dispatch.payload@ == encoded(system_notice(Action::Disconnect, identity@, now)),
            reaches_all(dispatch.recipients@, old(self).roster(), old(self)@),
    {
        proof {
            use_type_invariant(&*self);
        }
        let notice = Message::system_at(Action::Disconnect, identity.to_owned(), now);
        let dispatch = self.fan_out(encode(&notice));
        match self.position(identity) {
            Some(i) => {
                proof {
                    lemma_mapping_remove(self.entries@, i as int);
                    lemma_mapping_at(self.entries@, i as int);
                }
                let mut entries = Vec::new();
                std::mem::swap(&mut entries, &mut self.entries);
                entries.remove(i);
                self.entries = entries;
            },
            None => {
                assert(old(self)@.remove(identity@) =~= old(self)@);
            },
        }
        dispatch
    }

    /// Takes `identity` off the registry, stamping the notice with the
    /// current time. All is as in [`Registry::leave_at`], for whatever time
    /// the clock gave.
    pub fn leave(&mut self, identity: &str) -> (dispatch: Dispatch<H>)
        ensures
            old(self).wf(),
            final(self).wf(),
            final(self)@ == old(self)@.remove(identity@),
            final(self).roster() == roster_left(old(self).roster(), identity@),
            exists|now: u64|
                dispatch.payload@ == encoded(
                    #[trigger] system_notice(Action::Disconnect, identity@, now),
                ),
            reaches_all(dispatch.recipients@, old(self).roster(), old(self)@),
    {
        let now = get_timestamp();
        let dispatch = self.leave_at(identity, now);
        assert(dispatch.payload@ == encoded(system_notice(Action::Disconnect, identity@, now)));
        dispatch
    }
}

/// The mapping after the identities of `arrivals` joined it one after the
/// other, each with its handle.
pub open spec fn after_joins<H>(
    registered: Map<Seq<char>, H>,
    arrivals: Seq<(Seq<char>, H)>,
) -> Map<Seq<char>, H>
    decreases arrivals.len(),
{
    if arrivals.len() == 0 {
        registered
    } else {
        after_joins(registered, arrivals.drop_last()).insert(
            arrivals.last().0,
            arrivals.last().1,
        )
    }
}

/// The mapping after the identities of `departures` left it one after the
/// other.
pub open spec fn after_leaves<H>(
    registered: Map<Seq<char>, H>,
    departures: Seq<Seq<char>>,
) -> Map<Seq<char>, H>
    decreases departures.len(),
{
    if departures.len() == 0 {
        registered
    } else {
        after_leaves(registered, departures.drop_last()).remove(departures.last())
    }
}

/// Whether `identity` is among those that arrive.
pub open spec fn arrives<H>(arrivals: Seq<(Seq<char>, H)>, identity: Seq<char>) -> bool {
    exists|i: int| 0 <= i < arrivals.len() && (#[trigger] arrivals[i]).0 == identity
}

proof fn lemma_after_joins<H>(registered: Map<Seq<char>, H>, arrivals: Seq<(Seq<char>, H)>)
    ensures
        forall|identity: Seq<char>|
            #[trigger] after_joins(registered, arrivals).contains_key(identity) <==> (
            registered.contains_key(identity) || arrives(arrivals, identity)),
        forall|identity: Seq<char>|
            registered.contains_key(identity) && !arrives(arrivals, identity) ==> #[trigger] after_joins(
                registered,
                arrivals,
            )[identity] == registered[identity],
    decreases arrivals.len(),
{
    let now = after_joins(registered, arrivals);
    if arrivals.len() > 0 {
        let earlier = arrivals.drop_last();
        let before = after_joins(registered, earlier);
        lemma_after_joins(registered, earlier);
        assert(now == before.insert(arrivals.last().0, arrivals.last().1));
        assert forall|identity: Seq<char>| arrives(arrivals, identity) <==> (arrives(
            earlier,
            identity,
        ) || identity == arrivals.last().0) by {
            if arrives(arrivals, identity) {
                let i = choose|i: int| 0 <= i < arrivals.len() && (#[trigger] arrivals[i]).0 == identity;
                if i < earlier.len() {
                    assert(earlier[i].0 == identity);
                }
            }
            if arrives(earlier, identity) {
                let i = choose|i: int| 0 <= i < earlier.len() && (#[trigger] earlier[i]).0 == identity;
                assert(arrivals[i].0 == identity);
            }
            if identity == arrivals.last().0 {
                assert(arrivals[arrivals.len() - 1].0 == identity);
            }
        }
        assert forall|identity: Seq<char>| #[trigger]
            now.contains_key(identity) <==> (registered.contains_key(identity) || arrives(
                arrivals,
                identity,
            )) by {
            assert(before.contains_key(identity) <==> (registered.contains_key(identity) || arrives(
                earlier,
                identity,
            )));
        }
        assert forall|identity: Seq<char>|
            registered.contains_key(identity) && !arrives(arrivals, identity) implies #[trigger] now[identity]
            == registered[identity] by {
            assert(before[identity] == registered[identity]);
        }
    } else {
        assert forall|identity: Seq<char>| !arrives(arrivals, identity) by {}
    }
}

proof fn lemma_after_leaves<H>(registered: Map<Seq<char>, H>, departures: Seq<Seq<char>>)
    ensures
        forall|identity: Seq<char>|
            #[trigger] after_leaves(registered, departures).contains_key(identity) <==> (
            registered.contains_key(identity) && !departures.contains(identity)),
        forall|identity: Seq<char>|
            registered.contains_key(identity) && !departures.contains(identity) ==> #[trigger] after_leaves(
                registered,
                departures,
            )[identity] == registered[identity],
    decreases departures.len(),
{
    let now = after_leaves(registered, departures);
    if departures.len() > 0 {
        let earlier = departures.drop_last();
        let before = after_leaves(registered, earlier);
        lemma_after_leaves(registered, earlier);
        assert(now == before.remove(departures.last()));
        assert forall|identity: Seq<char>| departures.contains(identity) <==> (earlier.contains(
            identity,
        ) || identity == departures.last()) by {
            if departures.contains(identity) {
                let i = departures.index_of(identity);
                if i < earlier.len() {
                    assert(earlier[i] == identity);
                }
            }
            if earlier.contains(identity) {
                let i = earlier.index_of(identity);
                assert(departures[i] == identity);
            }
            if identity == departures.last() {
                assert(departures[departures.len() - 1] == identity);
            }
        }
        assert forall|identity: Seq<char>| #[trigger]
            now.contains_key(identity) <==> (registered.contains_key(identity)
                && !departures.contains(identity)) by {
            assert(before.contains_key(identity) <==> (registered.contains_key(identity)
                && !earlier.contains(identity)));
        }
        assert forall|identity: Seq<char>|
            registered.contains_key(identity) && !departures.contains(identity) implies #[trigger] now[identity]
            == registered[identity] by {
            assert(before[identity] == registered[identity]);
        }
    }
}

/// Joins followed by their leaves leave no trace. Let any number of
/// newcomers join, in any order, and let each of them leave again, in any
/// order and however often: the mapping is back to what it was, entry for
/// entry, and so is its size.
pub proof fn lemma_joins_then_leaves_restore<H>(
    registered: Map<Seq<char>, H>,
    arrivals: Seq<(Seq<char>, H)>,
    departures: Seq<Seq<char>>,
)
    requires
        forall|i: int|
            0 <= i < arrivals.len() ==> !registered.contains_key((#[trigger] arrivals[i]).0),
        forall|i: int|
            0 <= i < arrivals.len() ==> departures.contains((#[trigger] arrivals[i]).0),
        forall|j: int| 0 <= j < departures.len() ==> arrives(arrivals, #[trigger] departures[j]),
    ensures
        after_leaves(after_joins(registered, arrivals), departures) == registered,
        after_leaves(after_joins(registered, arrivals), departures).len() == registered.len(),
{
    let crowded = after_joins(registered, arrivals);
    let emptied = after_leaves(crowded, departures);
    lemma_after_joins(registered, arrivals);
    lemma_after_leaves(crowded, departures);
    assert forall|identity: Seq<char>| registered.contains_key(identity) implies !arrives(
        arrivals,
        identity,
    ) && !departures.contains(identity) by {
        if arrives(arrivals, identity) {
            let i = choose|i: int| 0 <= i < arrivals.len() && (#[trigger] arrivals[i]).0 == identity;
            assert(!registered.contains_key(arrivals[i].0));
        }
        if departures.contains(identity) {
            let j = departures.index_of(identity);
            assert(arrives(arrivals, departures[j]));
        }
    }
    assert forall|identity: Seq<char>| emptied.contains_key(identity) implies registered.contains_key(
        identity,
    ) by {
        assert(crowded.contains_key(identity));
        if arrives(arrivals, identity) {
            let i = choose|i: int| 0 <= i < arrivals.len() && (#[trigger] arrivals[i]).0 == identity;
            assert(departures.contains(arrivals[i].0));
        }
    }
    assert forall|identity: Seq<char>| registered.contains_key(identity) implies emptied.contains_key(
        identity,
    ) && emptied[identity] == registered[identity] by {
        assert(crowded.contains_key(identity));
        assert(crowded[identity] == registered[identity]);
    }
    assert(emptied =~= registered);
}

/// Two joins of different identities do not get in each other's way: in
/// whichever order they are processed, both end up registered, each with its
/// own handle, and the mapping is the same.
pub proof fn lemma_joins_commute<H>(
    registered: Map<Seq<char>, H>,
    first: Seq<char>,
    first_handle: H,
    second: Seq<char>,
    second_handle: H,
)
    requires
        first != second,
    ensures
        registered.insert(first, first_handle).insert(second, second_handle) == registered.insert(
            second,
            second_handle,
        ).insert(first, first_handle),
        registered.insert(first, first_handle).insert(second, second_handle).contains_pair(
            first,
            first_handle,
        ),
        registered.insert(first, first_handle).insert(second, second_handle).contains_pair(
            second,
            second_handle,
        ),
{
    assert(registered.insert(first, first_handle).insert(second, second_handle)
        =~= registered.insert(second, second_handle).insert(first, first_handle));
}

impl<H: Clone> Registry<H> {
    /// A dispatch that reaches all reaches exactly the registered: every
    /// registered identity has its handle among the recipients, every
    /// recipient is the handle of a registered identity, and there are as
    /// many recipients as there are registered identities.
    pub proof fn lemma_dispatch_exact(&self, recipients: Seq<H>)
        requires
            self.wf(),
            reaches_all(recipients, self.roster(), self@),
        ensures
            recipients.len() == self@.len(),
            forall|identity: Seq<char>| #[trigger]
                self@.contains_key(identity) ==> exists|i: int|
                    0 <= i < recipients.len() && self.roster()[i] == identity && cloned(
                        self@[identity],
                        #[trigger] recipients[i],
                    ),
            forall|i: int|
                0 <= i < recipients.len() ==> self@.contains_key(self.roster()[i]) && cloned(
                    self@[self.roster()[i]],
                    #[trigger] recipients[i],
                ),
    {
        self.lemma_roster_lists_mapping();
        assert forall|identity: Seq<char>| #[trigger] self@.contains_key(identity) implies exists|
            i: int,
        |
            0 <= i < recipients.len() && self.roster()[i] == identity && cloned(
                self@[identity],
                #[trigger] recipients[i],
            ) by {
            let i = self.roster().index_of(identity);
            assert(self.roster().contains(identity));
            assert(cloned(self@[self.roster()[i]], recipients[i]));
        }
        assert forall|i: int| 0 <= i < recipients.len() implies self@.contains_key(
            self.roster()[i],
        ) && cloned(self@[self.roster()[i]], #[trigger] recipients[i]) by {
            lemma_mapping_at(self.entries@, i);
        }
    }
}

} // verus!
