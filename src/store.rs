//! The token-keyed store of saved views, its subscribers, and the
//! notifications each change sends them.
use vstd::prelude::*;
use vstd::string::StringExecFns;
use vstd::utf8::encode_utf8;
use crate::encoding::{to_url_safe_base64, url_safe_base64};
use crate::frame::{encode_websocket_message, frame_of, TEXT_FRAME};
use crate::notify::{action_json, Action, ActionView, SavedUiViewData, ViewRecord};

verus! {

/// One frame to push to one subscriber.
pub struct Outgoing {
    pub subscriber: u64,
    pub frame: Vec<u8>,
}

/// The frame that carries notification `a`.
pub open spec fn notification_frame(a: ActionView) -> Seq<u8> {
    frame_of(TEXT_FRAME, encode_utf8(action_json(a)))
}

/// Entries as (token, record) pairs.
pub type EntrySeq = Seq<(Seq<char>, ViewRecord)>;

pub open spec fn unique_tokens(s: EntrySeq) -> bool {
    forall|i: int, j: int| 0 <= i < s.len() && 0 <= j < s.len() && s[i].0 == s[j].0 ==> i == j
}

pub open spec fn has_token(s: EntrySeq, k: Seq<char>) -> bool {
    exists|i: int| 0 <= i < s.len() && s[i].0 == k
}

/// The map that a sequence of entries with distinct tokens stands for.
pub open spec fn map_of(s: EntrySeq) -> Map<Seq<char>, ViewRecord> {
    Map::new(
        |k: Seq<char>| has_token(s, k),
        |k: Seq<char>| s[choose|i: int| 0 <= i < s.len() && s[i].0 == k].1,
    )
}

/// What a newly subscribed connection is sent first: its write permission,
/// the description, then one insert per entry.
pub open spec fn replay_of(can_write: bool, description: Seq<char>, s: EntrySeq) -> Seq<ActionView> {
    seq![ActionView::CanWrite(can_write), ActionView::Description(description)]
        + s.map_values(|e: (Seq<char>, ViewRecord)| ActionView::Insert { token: e.0, data: e.1 })
}

proof fn lemma_map_of_entry(s: EntrySeq, i: int)
    requires
        unique_tokens(s),
        0 <= i < s.len(),
    ensures
        map_of(s).contains_key(s[i].0),
        map_of(s)[s[i].0] == s[i].1,
{
    let k = s[i].0;
    assert(has_token(s, k));
    let j = choose|j: int| 0 <= j < s.len() && s[j].0 == k;
    assert(s[j].0 == s[i].0);
}

proof fn lemma_map_of_remove(s: EntrySeq, i: int)
    requires
        unique_tokens(s),
        0 <= i < s.len(),
    ensures
        unique_tokens(s.remove(i)),
        map_of(s.remove(i)) =~= map_of(s).remove(s[i].0),
{
    let t = s.remove(i);
    assert forall|a: int, b: int| 0 <= a < t.len() && 0 <= b < t.len() && t[a].0 == t[b].0 implies a == b by {
        let a2 = if a < i { a } else { a + 1 };
        let b2 = if b < i { b } else { b + 1 };
        assert(t[a] == s[a2] && t[b] == s[b2]);
    }
    assert forall|k: Seq<char>| #[trigger] map_of(t).contains_key(k) <==> map_of(s).remove(s[i].0).contains_key(k) by {
        if has_token(t, k) {
            let a = choose|a: int| 0 <= a < t.len() && t[a].0 == k;
            let a2 = if a < i { a } else { a + 1 };
            assert(t[a] == s[a2]);
            assert(has_token(s, k));
        }
        if has_token(s, k) && k != s[i].0 {
            let a = choose|a: int| 0 <= a < s.len() && s[a].0 == k;
            let a2 = if a < i { a } else { a - 1 };
            assert(t[a2] == s[a]);
            assert(has_token(t, k));
        }
    }
    assert forall|k: Seq<char>| #[trigger] map_of(t).contains_key(k) implies map_of(t)[k] == map_of(s)[k] by {
        let a = choose|a: int| 0 <= a < t.len() && t[a].0 == k;
        let a2 = if a < i { a } else { a + 1 };
        assert(t[a] == s[a2]);
        lemma_map_of_entry(t, a);
        lemma_map_of_entry(s, a2);
    }
}

proof fn lemma_map_of_push(s: EntrySeq, e: (Seq<char>, ViewRecord))
    requires
        unique_tokens(s),
        !has_token(s, e.0),
    ensures
        unique_tokens(s.push(e)),
        map_of(s.push(e)) =~= map_of(s).insert(e.0, e.1),
{
    let t = s.push(e);
    assert forall|k: Seq<char>| #[trigger] map_of(t).contains_key(k) <==> map_of(s).insert(e.0, e.1).contains_key(k) by {
        if has_token(t, k) && k != e.0 {
            let a = choose|a: int| 0 <= a < t.len() && t[a].0 == k;
            assert(t[a] == s[a]);
        }
        if has_token(s, k) {
            let a = choose|a: int| 0 <= a < s.len() && s[a].0 == k;
            assert(t[a] == s[a]);
        }
        if k == e.0 {
            assert(t[s.len() as int] == e);
        }
    }
    assert forall|k: Seq<char>| #[trigger] map_of(t).contains_key(k) implies map_of(t)[k] == map_of(s).insert(e.0, e.1)[k] by {
        let a = choose|a: int| 0 <= a < t.len() && t[a].0 == k;
        lemma_map_of_entry(t, a);
        if a < s.len() {
            assert(t[a] == s[a]);
            lemma_map_of_entry(s, a);
        }
    }
}

proof fn lemma_map_len(s: EntrySeq)
    requires
        unique_tokens(s),
    ensures
        map_of(s).len() == s.len(),
{
    let keys = s.map_values(|e: (Seq<char>, ViewRecord)| e.0);
    assert forall|i: int, j: int| 0 <= i < keys.len() && 0 <= j < keys.len() && i != j implies keys[i] != keys[j] by {
        assert(keys[i] == s[i].0 && keys[j] == s[j].0);
    }
    keys.unique_seq_to_set();
    assert forall|k: Seq<char>| #[trigger] keys.to_set().contains(k) <==> map_of(s).dom().contains(k) by {
        if keys.contains(k) {
            let i = choose|i: int| 0 <= i < keys.len() && keys[i] == k;
            assert(s[i].0 == k);
        }
        if has_token(s, k) {
            let i = choose|i: int| 0 <= i < s.len() && s[i].0 == k;
            assert(keys[i] == k);
        }
    }
    assert(keys.to_set() =~= map_of(s).dom());
}

/// The store: saved views by token, the description, and the ids of the
/// connections subscribed to changes.
pub struct SavedUiViewSet {
    views: Vec<(String, SavedUiViewData)>,
    description: String,
    next_id: u64,
    subscribers: Vec<u64>,
}

impl SavedUiViewSet {
    /// The entries in storage order.
    pub closed spec fn entries(&self) -> EntrySeq {
        self.views@.map_values(|e: (String, SavedUiViewData)| (e.0@, e.1@))
    }

    /// Saved views by token.
    pub closed spec fn views(&self) -> Map<Seq<char>, ViewRecord> {
        map_of(self.entries())
    }

    pub closed spec fn description_view(&self) -> Seq<char> {
        self.description@
    }

    pub closed spec fn subscriber_ids(&self) -> Seq<u64> {
        self.subscribers@
    }

    pub closed spec fn next_id_view(&self) -> u64 {
        self.next_id
    }

    /// Tokens are distinct; subscriber ids are distinct and all below the
    /// next id to hand out.
    pub closed spec fn wf(&self) -> bool {
        &&& unique_tokens(self.entries())
        &&& forall|i: int, j: int|
            0 <= i < self.subscribers@.len() && 0 <= j < self.subscribers@.len()
                && self.subscribers@[i] == self.subscribers@[j] ==> i == j
        &&& forall|i: int| 0 <= i < self.subscribers@.len() ==> self.subscribers@[i] < self.next_id
    }
}


/// The map that loading `s` in order gives: a later entry replaces an earlier
/// one with the same token.
pub open spec fn loaded(s: EntrySeq) -> Map<Seq<char>, ViewRecord>
    decreases s.len(),
{
    if s.len() == 0 {
        Map::empty()
    } else {
        loaded(s.drop_last()).insert(s.last().0, s.last().1)
    }
}

/// A subscription handed to a new connection: its id and the frames that
/// bring it up to date.
pub struct Subscription {
    pub id: u64,
    pub replay: Vec<Vec<u8>>,
}

impl SavedUiViewSet {
    /// A store holding `entries` (a later entry replaces an earlier one with
    /// the same token) and `description`, with no subscribers.
    pub fn new(entries: Vec<(String, SavedUiViewData)>, description: String) -> (r: SavedUiViewSet)
        ensures
            r.wf(),
            r.views() == loaded(entries@.map_values(|e: (String, SavedUiViewData)| (e.0@, e.1@))),
            r.description_view() == description@,
            r.subscriber_ids().len() == 0,
            r.next_id_view() == 0,
    {
        let ghost all = entries@.map_values(|e: (String, SavedUiViewData)| (e.0@, e.1@));
        let mut set = SavedUiViewSet {
            views: Vec::new(),
            description,
            next_id: 0,
            subscribers: Vec::new(),
        };
        proof {
            assert(set.entries() =~= Seq::empty());
            assert(set.views() =~= Map::empty());
        }
        let n: usize = entries.len();
        let mut i: usize = 0;
        while i < n
            invariant
                set.wf(),
                set.description_view() == description@,
                set.subscriber_ids().len() == 0,
                set.next_id_view() == 0,
                n == all.len(),
                all == entries@.map_values(|e: (String, SavedUiViewData)| (e.0@, e.1@)),
                i <= n,
                set.views() == loaded(all.subrange(0, i as int)),
            decreases n - i,
        {
            let token = entries[i].0.clone();
            let data = entries[i].1.duplicate();
            assert(all.subrange(0, i + 1).drop_last() =~= all.subrange(0, i as int));
            set.insert_entry(token, data);
            i = i + 1;
        }
        assert(all.subrange(0, n as int) =~= all);
        set
    }

    fn find(&self, token: &String) -> (r: Option<usize>)
        ensures
            r matches Some(i) ==> i < self.entries().len() && self.entries()[i as int].0 == token@,
            r is None ==> !has_token(self.entries(), token@),
    {
        let mut i: usize = 0;
        while i < self.views.len()
            invariant
                i <= self.views@.len(),
                forall|j: int| 0 <= j < i ==> self.entries()[j].0 != token@,
            decreases self.views@.len() - i,
        {
            if self.views[i].0 == *token {
                return Some(i);
            }
            i = i + 1;
        }
        None
    }

    fn remove_entry(&mut self, token: &String)
        requires
            old(self).wf(),
        ensures
            final(self).wf(),
            final(self).views() == old(self).views().remove(token@),
            !has_token(final(self).entries(), token@),
            final(self).description == old(self).description,
            final(self).subscribers == old(self).subscribers,
            final(self).next_id == old(self).next_id,
    {
        match self.find(token) {
            Some(i) => {
                let ghost s = self.entries();
                self.views.remove(i);
                proof {
                    assert(self.entries() =~= s.remove(i as int));
                    lemma_map_of_remove(s, i as int);
                    assert(!map_of(self.entries()).contains_key(token@));
                }
            },
            None => {
                assert(self.views() =~= old(self).views().remove(token@));
            },
        }
    }

    fn insert_entry(&mut self, token: String, data: SavedUiViewData)
        requires
            old(self).wf(),
        ensures
            final(self).wf(),
            final(self).views() == old(self).views().insert(token@, data@),
            final(self).description == old(self).description,
            final(self).subscribers == old(self).subscribers,
            final(self).next_id == old(self).next_id,
    {
        self.remove_entry(&token);
        let ghost s = self.entries();
        let ghost e = (token@, data@);
        self.views.push((token, data));
        proof {
            assert(self.entries() =~= s.push(e));
            lemma_map_of_push(s, e);
            assert(self.views() =~= old(self).views().insert(token@, data@));
        }
    }
}

/// The frames that a broadcast of `a` sends: one per subscriber, in order.
pub open spec fn broadcast_to(subs: Seq<u64>, a: ActionView, r: Seq<Outgoing>) -> bool {
    &&& r.len() == subs.len()
    &&& forall|i: int| 0 <= i < r.len() ==> #[trigger] r[i].subscriber == subs[i]
            && r[i].frame@ == notification_frame(a)
}

/// The externally visible token of a saved view: the URL-safe base64 of the
/// token bytes that the platform handed out.
pub fn token_for(binary_token: &[u8]) -> (r: String)
    ensures
        r@ == url_safe_base64(binary_token@),
{
    to_url_safe_base64(binary_token)
}

impl SavedUiViewSet {
    /// Frames `message` once and addresses a copy to every subscriber.
    pub fn send_message_to_subscribers(&self, message: &str) -> (r: Vec<Outgoing>)
        ensures
            r@.len() == self.subscriber_ids().len(),
            forall|i: int| 0 <= i < r@.len() ==> #[trigger] r@[i].subscriber == self.subscriber_ids()[i]
                && r@[i].frame@ == frame_of(TEXT_FRAME, encode_utf8(message@)),
    {
        let frame = encode_websocket_message(message);
        let mut out: Vec<Outgoing> = Vec::new();
        let mut i: usize = 0;
        while i < self.subscribers.len()
            invariant
                i <= self.subscribers@.len(),
                frame@ == frame_of(TEXT_FRAME, encode_utf8(message@)),
                out@.len() == i,
                forall|j: int| 0 <= j < i ==> #[trigger] out@[j].subscriber == self.subscribers@[j]
                    && out@[j].frame@ == frame@,
            decreases self.subscribers@.len() - i,
        {
            let copy = copy_bytes(&frame);
            out.push(Outgoing { subscriber: self.subscribers[i], frame: copy });
            i = i + 1;
        }
        out
    }

    /// Records `data` under `token` (replacing any earlier record) and
    /// announces the insert to every subscriber. The record's file is written
    /// before this is called.
    pub fn insert(&mut self, token: String, data: SavedUiViewData) -> (r: Vec<Outgoing>)
        requires
            old(self).wf(),
        ensures
            final(self).wf(),
            final(self).views() == old(self).views().insert(token@, data@),
            final(self).description_view() == old(self).description_view(),
            final(self).subscriber_ids() == old(self).subscriber_ids(),
            final(self).next_id_view() == old(self).next_id_view(),
            broadcast_to(old(self).subscriber_ids(), ActionView::Insert { token: token@, data: data@ }, r@),
    {
        let action = Action::Insert { token: token.clone(), data: data.duplicate() };
        let json = action.to_json();
        let out = self.send_message_to_subscribers(json.as_str());
        self.insert_entry(token, data);
        out
    }

    /// Drops the record under `token`, if any, and announces the removal to
    /// every subscriber either way. The record's file is unlinked before this
    /// is called.
    pub fn remove(&mut self, token: &str) -> (r: Vec<Outgoing>)
        requires
            old(self).wf(),
        ensures
            final(self).wf(),
            final(self).views() == old(self).views().remove(token@),
            final(self).description_view() == old(self).description_view(),
            final(self).subscriber_ids() == old(self).subscriber_ids(),
            final(self).next_id_view() == old(self).next_id_view(),
            broadcast_to(old(self).subscriber_ids(), ActionView::Remove { token: token@ }, r@),
    {
        let t = String::from_str(token);
        let action = Action::Remove { token: t.clone() };
        let json = action.to_json();
        let out = self.send_message_to_subscribers(json.as_str());
        self.remove_entry(&t);
        out
    }

    /// Replaces the description and announces it to every subscriber.
    pub fn update_description(&mut self, description: String) -> (r: Vec<Outgoing>)
        requires
            old(self).wf(),
        ensures
            final(self).wf(),
            final(self).views() == old(self).views(),
            final(self).description_view() == description@,
            final(self).subscriber_ids() == old(self).subscriber_ids(),
            final(self).next_id_view() == old(self).next_id_view(),
            broadcast_to(old(self).subscriber_ids(), ActionView::Description(description@), r@),
    {
        let action = Action::Description(description.clone());
        assert(action@ == ActionView::Description(description@));
        let json = action.to_json();
        let out = self.send_message_to_subscribers(json.as_str());
        self.description = description;
        out
    }

    /// Registers a new connection under the next id and returns the frames
    /// that replay the current state to it.
    pub fn new_subscribed_websocket(&mut self, can_write: bool) -> (r: Subscription)
        requires
            old(self).wf(),
            old(self).next_id_view() < u64::MAX,
        ensures
            final(self).wf(),
            r.id == old(self).next_id_view(),
            final(self).next_id_view() == old(self).next_id_view() + 1,
            final(self).subscriber_ids() == old(self).subscriber_ids().push(r.id),
            final(self).views() == old(self).views(),
            final(self).entries() == old(self).entries(),
            final(self).description_view() == old(self).description_view(),
            r.replay@.len() == replay_of(can_write, old(self).description_view(), old(self).entries()).len(),
            forall|i: int| 0 <= i < r.replay@.len() ==> #[trigger] r.replay@[i]@ == notification_frame(
                replay_of(can_write, old(self).description_view(), old(self).entries())[i],
            ),
    {
        let id = self.next_id;
        self.next_id = id + 1;
        self.subscribers.push(id);
        let ghost expected = replay_of(can_write, self.description@, self.entries());
        let mut replay: Vec<Vec<u8>> = Vec::new();
        let first = Action::CanWrite(can_write).to_json();
        replay.push(encode_websocket_message(first.as_str()));
        let second = Action::Description(self.description.clone()).to_json();
        replay.push(encode_websocket_message(second.as_str()));
        let mut i: usize = 0;
        while i < self.views.len()
            invariant
                i <= self.views@.len(),
                expected == replay_of(can_write, self.description@, self.entries()),
                replay@.len() == i + 2,
                forall|j: int| 0 <= j < i + 2 ==> #[trigger] replay@[j]@ == notification_frame(expected[j]),
            decreases self.views@.len() - i,
        {
            let action = Action::Insert { token: self.views[i].0.clone(), data: self.views[i].1.duplicate() };
            let json = action.to_json();
            replay.push(encode_websocket_message(json.as_str()));
            i = i + 1;
        }
        Subscription { id, replay }
    }

    /// Forgets subscriber `id`; nothing happens if it is not registered.
    pub fn unsubscribe(&mut self, id: u64)
        requires
            old(self).wf(),
        ensures
            final(self).wf(),
            !final(self).subscriber_ids().contains(id),
            forall|x: u64| x != id ==> (final(self).subscriber_ids().contains(x) <==> old(self).subscriber_ids().contains(x)),
            final(self).views() == old(self).views(),
            final(self).description_view() == old(self).description_view(),
            final(self).next_id_view() == old(self).next_id_view(),
    {
        let mut i: usize = 0;
        while i < self.subscribers.len()
            invariant
                *self == *old(self),
                self.wf(),
                i <= self.subscribers@.len(),
                forall|j: int| 0 <= j < i ==> self.subscribers@[j] != id,
            decreases self.subscribers@.len() - i,
        {
            if self.subscribers[i] == id {
                let ghost s = self.subscribers@;
                assert(s == old(self).subscribers@);
                assert(forall|a: int, b: int| 0 <= a < s.len() && 0 <= b < s.len() && s[a] == s[b] ==> a == b);
                self.subscribers.remove(i);
                assert(self.subscribers@ =~= s.remove(i as int));
                assert forall|x: u64| x != id implies (self.subscribers@.contains(x) <==> s.contains(x)) by {
                    if s.contains(x) {
                        let k = choose|k: int| 0 <= k < s.len() && s[k] == x;
                        if k < i { assert(self.subscribers@[k] == x); } else { assert(self.subscribers@[k - 1] == x); }
                    }
                }
                assert forall|a: int| 0 <= a < self.subscribers@.len() implies self.subscribers@[a] != id by {
                    if a >= i {
                        assert(self.subscribers@[a] == s[a + 1]);
                        assert(s[i as int] == id);
                    }
                }
                assert forall|a: int, b: int|
                    0 <= a < self.subscribers@.len() && 0 <= b < self.subscribers@.len()
                        && self.subscribers@[a] == self.subscribers@[b] implies a == b by {
                    let a2 = if a < i { a } else { a + 1 };
                    let b2 = if b < i { b } else { b + 1 };
                    assert(self.subscribers@[a] == s[a2] && self.subscribers@[b] == s[b2]);
                }
                assert forall|a: int| 0 <= a < self.subscribers@.len() implies self.subscribers@[a] < self.next_id by {
                    let a2 = if a < i { a } else { a + 1 };
                    assert(self.subscribers@[a] == s[a2]);
                }
                return;
            }
            i = i + 1;
        }
    }

    pub fn description(&self) -> (r: &String)
        ensures
            r@ == self.description_view(),
    {
        &self.description
    }

    /// The record saved under `token`, if any.
    pub fn get(&self, token: &str) -> (r: Option<SavedUiViewData>)
        requires
            self.wf(),
        ensures
            r is Some <==> self.views().contains_key(token@),
            r matches Some(d) ==> d@ == self.views()[token@],
    {
        let t = String::from_str(token);
        match self.find(&t) {
            Some(i) => {
                proof { lemma_map_of_entry(self.entries(), i as int); }
                Some(self.views[i].1.duplicate())
            },
            None => None,
        }
    }

    /// The number of saved views.
    pub fn len(&self) -> (r: usize)
        requires
            self.wf(),
        ensures
            r == self.views().len(),
    {
        proof { lemma_map_len(self.entries()); }
        self.views.len()
    }

    /// The id the next subscriber will get.
    pub fn next_id(&self) -> (r: u64)
        ensures
            r == self.next_id_view(),
    {
        self.next_id
    }

    /// The subscriber ids, oldest first.
    pub fn subscribers(&self) -> (r: Vec<u64>)
        ensures
            r@ == self.subscriber_ids(),
    {
        self.subscribers.clone()
    }
}

fn copy_bytes(v: &Vec<u8>) -> (r: Vec<u8>)
    ensures
        r@ == v@,
{
    let mut out: Vec<u8> = Vec::new();
    let mut i: usize = 0;
    while i < v.len()
        invariant
            i <= v@.len(),
            out@ == v@.subrange(0, i as int),
        decreases v@.len() - i,
    {
        out.push(v[i]);
        i = i + 1;
        assert(out@ =~= v@.subrange(0, i as int));
    }
    assert(v@.subrange(0, v@.len() as int) =~= v@);
    out
}

/// A change to the saved views, as seen by the in-memory map and by the
/// directory of record files alike.
pub enum StoreOp {
    Insert(Seq<char>, ViewRecord),
    Remove(Seq<char>),
}

pub open spec fn apply_op(m: Map<Seq<char>, ViewRecord>, op: StoreOp) -> Map<Seq<char>, ViewRecord> {
    match op {
        StoreOp::Insert(t, d) => m.insert(t, d),
        StoreOp::Remove(t) => m.remove(t),
    }
}

/// The saved views after replaying `ops` on `start`.
pub open spec fn replay(start: Map<Seq<char>, ViewRecord>, ops: Seq<StoreOp>) -> Map<Seq<char>, ViewRecord>
    decreases ops.len(),
{
    if ops.len() == 0 {
        start
    } else {
        apply_op(replay(start, ops.drop_last()), ops.last())
    }
}

proof fn lemma_loaded_unique(s: EntrySeq)
    requires
        unique_tokens(s),
    ensures
        loaded(s) == map_of(s),
    decreases s.len(),
{
    if s.len() == 0 {
        assert(map_of(s) =~= Map::empty());
    } else {
        let t = s.drop_last();
        assert(unique_tokens(t)) by {
            assert forall|i: int, j: int| 0 <= i < t.len() && 0 <= j < t.len() && t[i].0 == t[j].0 implies i == j by {
                assert(t[i] == s[i] && t[j] == s[j]);
            }
        }
        lemma_loaded_unique(t);
        assert(!has_token(t, s.last().0)) by {
            if has_token(t, s.last().0) {
                let i = choose|i: int| 0 <= i < t.len() && t[i].0 == s.last().0;
                assert(t[i] == s[i]);
            }
        }
        lemma_map_of_push(t, s.last());
        assert(t.push(s.last()) =~= s);
    }
}

/// Durability: take any inserts and removals, applied one by one to the
/// in-memory views (each state the previous one changed by its operation, as
/// `insert` and `remove` ensure) and, in the same order, to the directory of
/// record files. Reopening the store on a listing of that directory (one file
/// per token, in any order) gives the views the store held at the end.
pub proof fn lemma_reopen_matches_replay(
    states: Seq<Map<Seq<char>, ViewRecord>>,
    ops: Seq<StoreOp>,
    listing: EntrySeq,
)
    requires
        states.len() == ops.len() + 1,
        states[0] == Map::<Seq<char>, ViewRecord>::empty(),
        forall|i: int| 0 <= i < ops.len() ==> #[trigger] states[i + 1] == apply_op(states[i], ops[i]),
        unique_tokens(listing),
        map_of(listing) == replay(Map::empty(), ops),
    ensures
        loaded(listing) == states.last(),
{
    assert forall|k: int| 0 <= k <= ops.len() implies #[trigger] states[k] == replay(Map::empty(), ops.take(k)) by {
        lemma_states_replay(states, ops, k);
    }
    assert(ops.take(ops.len() as int) =~= ops);
    assert(states[ops.len() as int] == states.last());
    lemma_loaded_unique(listing);
}

proof fn lemma_states_replay(states: Seq<Map<Seq<char>, ViewRecord>>, ops: Seq<StoreOp>, k: int)
    requires
        states.len() == ops.len() + 1,
        states[0] == Map::<Seq<char>, ViewRecord>::empty(),
        forall|i: int| 0 <= i < ops.len() ==> #[trigger] states[i + 1] == apply_op(states[i], ops[i]),
        0 <= k <= ops.len(),
    ensures
        states[k] == replay(Map::empty(), ops.take(k)),
    decreases k,
{
    if k > 0 {
        lemma_states_replay(states, ops, k - 1);
        assert(ops.take(k).drop_last() =~= ops.take(k - 1));
        assert(states[(k - 1) + 1] == apply_op(states[k - 1], ops[k - 1]));
    }
}

/// `a` announces an insert under token `t`.
pub open spec fn inserts_token(a: ActionView, t: Seq<char>) -> bool {
    a matches ActionView::Insert { token, .. } && token == t
}

/// A store that was just given `d` under `t` replays to a fresh subscriber
/// exactly one insert notification for `t`, and it carries `d`.
pub proof fn lemma_replay_after_insert(before: SavedUiViewSet, after: SavedUiViewSet, t: Seq<char>, d: ViewRecord, can_write: bool)
    requires
        before.wf(),
        after.wf(),
        after.views() == before.views().insert(t, d),
    ensures
        ({
            let r = replay_of(can_write, after.description_view(), after.entries());
            &&& exists|i: int| 0 <= i < r.len() && r[i] == (ActionView::Insert { token: t, data: d })
            &&& forall|i: int, j: int|
                0 <= i < r.len() && 0 <= j < r.len() && #[trigger] inserts_token(r[i], t)
                    && #[trigger] inserts_token(r[j], t) ==> i == j
        }),
{
    let s = after.entries();
    let r = replay_of(can_write, after.description_view(), s);
    assert(after.views().contains_key(t));
    assert(has_token(s, t));
    let k = choose|k: int| 0 <= k < s.len() && s[k].0 == t;
    lemma_map_of_entry(s, k);
    assert(r[k + 2] == (ActionView::Insert { token: t, data: d }));
    assert forall|i: int, j: int|
        0 <= i < r.len() && 0 <= j < r.len() && #[trigger] inserts_token(r[i], t)
            && #[trigger] inserts_token(r[j], t) implies i == j by {
        assert(i >= 2 && j >= 2);
        assert(s[i - 2].0 == t && s[j - 2].0 == t);
    }
}

/// A broadcast pushes to each subscriber separately: when the push to one
/// subscriber fails, every other subscriber still has its own push of the
/// whole notification, and those are `n - 1` subscribers out of `n`.
pub proof fn lemma_broadcast_survives_one_failure(subs: Seq<u64>, a: ActionView, r: Seq<Outgoing>, failed: u64)
    requires
        subs.no_duplicates(),
        subs.contains(failed),
        broadcast_to(subs, a, r),
    ensures
        forall|s: u64| subs.contains(s) && s != failed ==> exists|i: int| 0 <= i < r.len()
            && #[trigger] r[i].subscriber == s && r[i].frame@ == notification_frame(a),
        subs.to_set().remove(failed).len() == subs.len() - 1,
{
    assert forall|s: u64| subs.contains(s) && s != failed implies exists|i: int| 0 <= i < r.len()
        && #[trigger] r[i].subscriber == s && r[i].frame@ == notification_frame(a) by {
        let i = choose|i: int| 0 <= i < subs.len() && subs[i] == s;
        assert(r[i].subscriber == s);
    }
    subs.unique_seq_to_set();
}

/// Once a connection is torn down and unsubscribed, it is sent nothing more:
/// the next broadcast addresses no frame to it.
pub proof fn lemma_unsubscribed_gets_nothing(subs: Seq<u64>, a: ActionView, r: Seq<Outgoing>, gone: u64)
    requires
        !subs.contains(gone),
        broadcast_to(subs, a, r),
    ensures
        forall|i: int| 0 <= i < r.len() ==> #[trigger] r[i].subscriber != gone,
{
    assert forall|i: int| 0 <= i < r.len() implies #[trigger] r[i].subscriber != gone by {
        assert(r[i].subscriber == subs[i]);
    }
}

} // verus!
