//! The state store and its synchronization with subscribers.
//!
//! The store holds the one live configuration and the run-state flags, and
//! counts the updates applied to it.  Every subscriber has an outbox: the
//! queue of messages that are still to be sent to it, oldest first.  An
//! update that is applied is put into every outbox, so that each subscriber
//! sees the updates in the order in which they were applied.

use vstd::prelude::*;
use crate::ident::{fresh_client_id, CLIENT_ID_LEN};
use crate::types::{AppState, InternalState, WebsocketRequest, WebsocketResponse};

verus! {

/// The two documents of the store.
#[derive(Clone, Copy, Debug, PartialEq, Eq, Structural)]
pub enum StateKind {
    AppState,
    InternalState,
}

/// The document a name stands for: `app_state` or `internal_state`.
pub open spec fn kind_of(name: Seq<char>) -> Option<StateKind> {
    if name == "internal_state"@ {
        Some(StateKind::InternalState)
    } else if name == "app_state"@ {
        Some(StateKind::AppState)
    } else {
        None
    }
}

/// The kind of the envelope that announces a new value of a document.
pub open spec fn update_event(kind: StateKind) -> Seq<char> {
    match kind {
        StateKind::AppState => "app_state_update"@,
        StateKind::InternalState => "internal_state_update"@,
    }
}

/// The document a name stands for, if any.
pub fn state_kind(name: &String) -> (kind: Option<StateKind>)
    ensures
        kind == kind_of(name@),
{
    if *name == "internal_state".to_owned() {
        Some(StateKind::InternalState)
    } else if *name == "app_state".to_owned() {
        Some(StateKind::AppState)
    } else {
        None
    }
}

impl StateKind {
    /// The kind of the envelope that announces a new value of the document.
    pub fn event_name(self) -> (name: String)
        ensures
            name@ == update_event(self),
    {
        match self {
            StateKind::AppState => "app_state_update".to_owned(),
            StateKind::InternalState => "internal_state_update".to_owned(),
        }
    }
}

/// A new value for one of the two documents.
#[derive(Debug, PartialEq, Eq)]
pub enum StateValue {
    App(AppState),
    Internal(InternalState),
}

impl StateValue {
    /// The document the value is for.
    pub open spec fn kind(self) -> StateKind {
        match self {
            StateValue::App(_) => StateKind::AppState,
            StateValue::Internal(_) => StateKind::InternalState,
        }
    }
}

/// The store: the live configuration, the run-state flags, and the number of
/// updates applied so far.
#[derive(Debug, PartialEq, Eq)]
pub struct StateSyncer {
    app_state: AppState,
    internal_state: InternalState,
    version: u64,
}

impl StateSyncer {
    /// The live configuration.
    pub closed spec fn app(&self) -> AppState {
        self.app_state
    }

    /// The run-state flags.
    pub closed spec fn internal(&self) -> InternalState {
        self.internal_state
    }

    /// The number of updates applied so far.
    pub closed spec fn count(&self) -> u64 {
        self.version
    }

    /// A store that starts from the given documents, with no update applied.
    pub fn new(app_state: AppState, internal_state: InternalState) -> (store: StateSyncer)
        ensures
            store.app() == app_state,
            store.internal() == internal_state,
            store.count() == 0,
    {
        StateSyncer { app_state, internal_state, version: 0 }
    }

    /// A copy of the live configuration.
    pub fn snapshot_app_state(&self) -> (state: AppState)
        ensures
            state == self.app(),
    {
        self.app_state.clone()
    }

    /// A copy of the run-state flags.
    pub fn snapshot_internal_state(&self) -> (state: InternalState)
        ensures
            state == self.internal(),
    {
        self.internal_state.clone()
    }

    /// The number of updates applied so far.
    pub fn version(&self) -> (version: u64)
        ensures
            version == self.count(),
    {
        self.version
    }

    /// Whether `next` names another model than the live configuration does.
    /// If so, the engine has to be rebuilt before `next` is applied.
    pub fn model_changed(&self, next: &AppState) -> (changed: bool)
        ensures
            changed == (next.model_path@ != self.app().model_path@),
    {
        !(next.model_path == self.app_state.model_path)
    }

    /// Applies a new value: it supersedes the document it is for, the other
    /// document stays, and the update is counted.
    pub fn update(&mut self, value: StateValue)
        requires
            old(self).count() < u64::MAX,
        ensures
            final(self).count() == old(self).count() + 1,
            match value {
                StateValue::App(state) => final(self).app() == state && final(self).internal()
                    == old(self).internal(),
                StateValue::Internal(state) => final(self).internal() == state && final(self).app()
                    == old(self).app(),
            },
    {
        match value {
            StateValue::App(state) => {
                self.app_state = state;
            },
            StateValue::Internal(state) => {
                self.internal_state = state;
            },
        }
        self.version += 1;
    }

    /// Whether transcription is marked as running.
    pub fn get_transcribe_running(&self) -> (running: bool)
        ensures
            running == self.internal().transcribe_running,
    {
        self.internal_state.transcribe_running
    }

    /// Marks transcription as running.  Refused, with nothing changed, if it
    /// is running already.
    pub fn start_transcribe(&mut self) -> (started: Result<(), ()>)
        ensures
            old(self).internal().transcribe_running ==> started is Err && *final(self) == *old(
                self,
            ),
            !old(self).internal().transcribe_running ==> {
                &&& started is Ok
                &&& final(self).internal() == (InternalState {
                    transcribe_running: true,
                    ..old(self).internal()
                })
                &&& final(self).app() == old(self).app()
                &&& final(self).count() == old(self).count()
            },
    {
        if self.internal_state.transcribe_running {
            Err(())
        } else {
            self.internal_state.transcribe_running = true;
            Ok(())
        }
    }

    /// Marks transcription as stopped.  The loop sees the flag at the top of
    /// its next cycle.
    pub fn stop_transcribe(&mut self)
        ensures
            final(self).internal() == (InternalState {
                transcribe_running: false,
                ..old(self).internal()
            }),
            final(self).app() == old(self).app(),
            final(self).count() == old(self).count(),
    {
        self.internal_state.transcribe_running = false;
    }
}

/// A subscriber: its id and the messages still to be sent to it, oldest
/// first.
#[derive(Debug, PartialEq, Eq)]
pub struct Client {
    pub client_id: String,
    pub outbox: Vec<String>,
}

/// A subscriber with its id and its messages as sequences of characters.
pub struct ClientView {
    pub id: Seq<char>,
    pub outbox: Seq<Seq<char>>,
}

impl View for Client {
    type V = ClientView;

    open spec fn view(&self) -> ClientView {
        ClientView { id: self.client_id@, outbox: self.outbox.deep_view() }
    }
}

impl DeepView for Client {
    type V = ClientView;

    open spec fn deep_view(&self) -> ClientView {
        self@
    }
}

/// Position of the first subscriber with the id `id`; the number of
/// subscribers if there is none.
pub open spec fn position_of(clients: Seq<ClientView>, id: Seq<char>) -> int
    decreases clients.len(),
{
    if clients.len() == 0 || clients[0].id == id {
        0
    } else {
        1 + position_of(clients.drop_first(), id)
    }
}

/// No two subscribers share an id.
pub open spec fn distinct_ids(clients: Seq<ClientView>) -> bool {
    forall|i: int, j: int|
        0 <= i < j < clients.len() ==> (#[trigger] clients[i]).id != (#[trigger] clients[j]).id
}

/// The subscribers after `message` was put into every outbox.
pub open spec fn delivered(clients: Seq<ClientView>, message: Seq<char>) -> Seq<ClientView> {
    Seq::new(
        clients.len(),
        |i: int| ClientView { id: clients[i].id, outbox: clients[i].outbox.push(message) },
    )
}

/// The subscribers after one with the id `id` connected: it stands at the
/// end with an empty outbox, or in the place of the one that had that id
/// before.
pub open spec fn connected(clients: Seq<ClientView>, id: Seq<char>) -> Seq<ClientView> {
    let at = position_of(clients, id);
    let fresh = ClientView { id, outbox: Seq::empty() };
    if at < clients.len() {
        clients.update(at, fresh)
    } else {
        clients.push(fresh)
    }
}

/// The subscribers after the one with the id `id` went away.
pub open spec fn disconnected(clients: Seq<ClientView>, id: Seq<char>) -> Seq<ClientView> {
    let at = position_of(clients, id);
    if at < clients.len() {
        clients.remove(at)
    } else {
        clients
    }
}

/// The first subscriber with the id `id` stands at `position_of`, and none
/// before it has that id.
pub proof fn lemma_position_of(clients: Seq<ClientView>, id: Seq<char>)
    ensures
        0 <= position_of(clients, id) <= clients.len(),
        forall|i: int| 0 <= i < position_of(clients, id) ==> (#[trigger] clients[i]).id != id,
        position_of(clients, id) < clients.len() ==> clients[position_of(clients, id)].id == id,
    decreases clients.len(),
{
    if clients.len() == 0 || clients[0].id == id {
    } else {
        let rest = clients.drop_first();
        lemma_position_of(rest, id);
        assert forall|i: int| 0 <= i < position_of(clients, id) implies (#[trigger] clients[i]).id
            != id by {
            if i > 0 {
                assert(clients[i] == rest[i - 1]);
            }
        }
        if position_of(clients, id) < clients.len() {
            assert(clients[position_of(clients, id)] == rest[position_of(rest, id)]);
        }
    }
}

/// A position before which no subscriber has the id, and at which one has
/// it or the subscribers end, is `position_of`.
pub proof fn lemma_position_of_is(clients: Seq<ClientView>, id: Seq<char>, at: int)
    requires
        0 <= at <= clients.len(),
        forall|i: int| 0 <= i < at ==> (#[trigger] clients[i]).id != id,
        at < clients.len() ==> clients[at].id == id,
    ensures
        position_of(clients, id) == at,
{
    lemma_position_of(clients, id);
    let found = position_of(clients, id);
    if found < at {
        assert(clients[found].id != id);
    } else if found > at {
        assert(clients[at].id != id);
    }
}

/// Connecting and disconnecting keep the ids of the subscribers distinct,
/// and a delivery changes no id.
pub proof fn lemma_distinct_ids_kept(clients: Seq<ClientView>, id: Seq<char>, message: Seq<char>)
    requires
        distinct_ids(clients),
    ensures
        distinct_ids(connected(clients, id)),
        distinct_ids(disconnected(clients, id)),
        distinct_ids(delivered(clients, message)),
{
    lemma_position_of(clients, id);
    let at = position_of(clients, id);
    let joined = connected(clients, id);
    assert forall|i: int, j: int| 0 <= i < j < joined.len() implies (#[trigger] joined[i]).id != (
    #[trigger] joined[j]).id by {
        if at < clients.len() {
            assert(joined[i].id == clients[i].id);
            assert(joined[j].id == clients[j].id);
        } else {
            if j < clients.len() {
                assert(joined[i] == clients[i] && joined[j] == clients[j]);
            } else {
                assert(joined[i] == clients[i]);
            }
        }
    }
    let left = disconnected(clients, id);
    assert forall|i: int, j: int| 0 <= i < j < left.len() implies (#[trigger] left[i]).id != (
    #[trigger] left[j]).id by {
        if at < clients.len() {
            let pi = if i < at { i } else { i + 1 };
            let pj = if j < at { j } else { j + 1 };
            assert(left[i] == clients[pi]);
            assert(left[j] == clients[pj]);
        }
    }
    let sent = delivered(clients, message);
    assert forall|i: int, j: int| 0 <= i < j < sent.len() implies (#[trigger] sent[i]).id != (
    #[trigger] sent[j]).id by {
        assert(sent[i].id == clients[i].id);
        assert(sent[j].id == clients[j].id);
    }
}

/// A message that is put into every outbox reaches every subscriber once
/// and is the same for all of them: each outbox grows by this one message at
/// its end, what stood in it before stays in front, and no subscriber is
/// added, lost or renamed.
pub proof fn lemma_delivered_to_all(clients: Seq<ClientView>, message: Seq<char>)
    ensures
        delivered(clients, message).len() == clients.len(),
        forall|i: int|
            0 <= i < clients.len() ==> {
                &&& (#[trigger] delivered(clients, message)[i]).id == clients[i].id
                &&& delivered(clients, message)[i].outbox.len() == clients[i].outbox.len() + 1
                &&& delivered(clients, message)[i].outbox.last() == message
                &&& delivered(clients, message)[i].outbox.drop_last() == clients[i].outbox
            },
        forall|i: int, j: int|
            0 <= i < clients.len() && 0 <= j < clients.len() ==> (#[trigger] delivered(
                clients,
                message,
            )[i]).outbox.last() == (#[trigger] delivered(clients, message)[j]).outbox.last(),
{
    assert forall|i: int| 0 <= i < clients.len() implies {
        &&& (#[trigger] delivered(clients, message)[i]).id == clients[i].id
        &&& delivered(clients, message)[i].outbox.len() == clients[i].outbox.len() + 1
        &&& delivered(clients, message)[i].outbox.last() == message
        &&& delivered(clients, message)[i].outbox.drop_last() == clients[i].outbox
    } by {
        assert(delivered(clients, message)[i].outbox.drop_last() =~= clients[i].outbox);
    }
}

/// What a request asks for.
#[derive(Clone, Copy, Debug, PartialEq, Eq, Structural)]
pub enum RequestAction {
    /// The sender is to get the live configuration in an envelope.
    SendAppState,
    /// The message was no request at all; it is dropped.
    Malformed,
    /// The request names no kind; it is not answered.
    MissingKind,
    /// The request names a kind that is not known; it is not answered.
    UnknownKind,
}

/// What a request of the given kind asks for.
pub open spec fn action_for(kind: Seq<char>) -> RequestAction {
    if kind == "get_appstate"@ {
        RequestAction::SendAppState
    } else if kind.len() == 0 {
        RequestAction::MissingKind
    } else {
        RequestAction::UnknownKind
    }
}

/// The envelope for a value of the given kind.  `payload` is the value in
/// its wire form, or the reason why it could not be brought into that form;
/// in that case the envelope carries the reason and is flagged as an error.
pub open spec fn envelope(kind: Seq<char>, payload: Result<String, String>, response:
    WebsocketResponse) -> bool {
    &&& response.kind@ == kind
    &&& match payload {
        Ok(data) => response.data == data && !response.is_error,
        Err(reason) => response.data == reason && response.is_error,
    }
}

/// An update under the name `name` is taken: the name stands for a
/// document, and the value could be read and is one for that document.
pub open spec fn update_accepted(name: Seq<char>, value: Option<StateValue>) -> bool {
    value matches Some(value) && kind_of(name) == Some(value.kind())
}

/// `after` is `before` with one update applied: the value supersedes its
/// document, the update is counted, and the message that announces it, if
/// there is one, stands at the end of every outbox.
pub open spec fn update_applies(
    before: WebsocketManager,
    value: StateValue,
    message: Option<String>,
    after: WebsocketManager,
) -> bool {
    &&& after.state().count() == before.state().count() + 1
    &&& match value {
        StateValue::App(state) => after.state().app() == state && after.state().internal()
            == before.state().internal(),
        StateValue::Internal(state) => after.state().internal() == state && after.state().app()
            == before.state().app(),
    }
    &&& after.subscribers() == match message {
        Some(message) => delivered(before.subscribers(), message@),
        None => before.subscribers(),
    }
}

/// Every applied update raises the count of the store, and of two updates
/// applied one after the other every subscriber finds the announcements in
/// its outbox in that order, behind what was there before.
pub proof fn lemma_updates_in_order(
    start: WebsocketManager,
    first: StateValue,
    first_message: String,
    between: WebsocketManager,
    second: StateValue,
    second_message: String,
    end: WebsocketManager,
)
    requires
        update_applies(start, first, Some(first_message), between),
        update_applies(between, second, Some(second_message), end),
    ensures
        start.state().count() < between.state().count() < end.state().count(),
        end.subscribers().len() == start.subscribers().len(),
        forall|i: int|
            0 <= i < start.subscribers().len() ==> {
                &&& (#[trigger] end.subscribers()[i]).id == start.subscribers()[i].id
                &&& end.subscribers()[i].outbox == start.subscribers()[i].outbox + seq![
                    first_message@,
                    second_message@,
                ]
            },
{
    assert forall|i: int| 0 <= i < start.subscribers().len() implies {
        &&& (#[trigger] end.subscribers()[i]).id == start.subscribers()[i].id
        &&& end.subscribers()[i].outbox == start.subscribers()[i].outbox + seq![
            first_message@,
            second_message@,
        ]
    } by {
        assert(between.subscribers()[i].outbox == start.subscribers()[i].outbox.push(
            first_message@,
        ));
        assert(end.subscribers()[i].outbox =~= start.subscribers()[i].outbox + seq![
            first_message@,
            second_message@,
        ]);
    }
}

/// The hub of the synchronization: the store and the subscribers.
#[derive(Debug, PartialEq, Eq)]
pub struct WebsocketManager {
    clients: Vec<Client>,
    store: StateSyncer,
}

impl WebsocketManager {
    /// The subscribers, in the order in which they connected.
    pub closed spec fn subscribers(&self) -> Seq<ClientView> {
        self.clients.deep_view()
    }

    /// The store.
    pub closed spec fn state(&self) -> StateSyncer {
        self.store
    }

    /// No two subscribers share an id.
    pub open spec fn wf(&self) -> bool {
        distinct_ids(self.subscribers())
    }

    /// A hub around `store`, without subscribers.
    pub fn new(store: StateSyncer) -> (manager: WebsocketManager)
        ensures
            manager.state() == store,
            manager.subscribers() == Seq::<ClientView>::empty(),
            manager.wf(),
    {
        let manager = WebsocketManager { clients: Vec::new(), store };
        assert(manager.clients.deep_view() =~= Seq::empty());
        manager
    }

    /// The store.
    pub fn store(&self) -> (store: &StateSyncer)
        ensures
            *store == self.state(),
    {
        &self.store
    }

    /// Number of subscribers.
    pub fn client_count(&self) -> (count: usize)
        ensures
            count == self.subscribers().len(),
    {
        self.clients.len()
    }

    /// Position of the first subscriber with the id `id`; the number of
    /// subscribers if there is none.
    pub fn position(&self, id: &String) -> (at: usize)
        ensures
            at == position_of(self.subscribers(), id@),
            at <= self.subscribers().len(),
    {
        let mut at: usize = 0;
        while at < self.clients.len() && !(self.clients[at].client_id == *id)
            invariant
                at <= self.clients.len(),
                forall|i: int| 0 <= i < at ==> (#[trigger] self.clients.deep_view()[i]).id != id@,
            decreases self.clients.len() - at,
        {
            at += 1;
        }
        proof {
            lemma_position_of_is(self.subscribers(), id@, at as int);
        }
        at
    }

    /// Takes a subscriber with the given id in, with an empty outbox.  A
    /// subscriber that had this id before is superseded.
    pub fn register(&mut self, id: String)
        requires
            old(self).wf(),
        ensures
            final(self).subscribers() == connected(old(self).subscribers(), id@),
            final(self).state() == old(self).state(),
            final(self).wf(),
    {
        let at = self.position(&id);
        proof {
            lemma_distinct_ids_kept(self.subscribers(), id@, Seq::empty());
        }
        let ghost before = self.clients.deep_view();
        let client = Client { client_id: id, outbox: Vec::new() };
        assert(client.outbox.deep_view() =~= Seq::empty());
        if at < self.clients.len() {
            self.clients[at] = client;
            assert(self.clients.deep_view() =~= connected(before, id@));
        } else {
            self.clients.push(client);
            assert(self.clients.deep_view() =~= connected(before, id@));
        }
    }

    /// Takes a new subscriber in under a fresh id and says which.
    pub fn client_connection(&mut self) -> (id: String)
        requires
            old(self).wf(),
        ensures
            id@.len() == CLIENT_ID_LEN,
            final(self).subscribers() == connected(old(self).subscribers(), id@),
            final(self).state() == old(self).state(),
            final(self).wf(),
    {
        let id = fresh_client_id();
        self.register(id.clone());
        id
    }

    /// Lets the subscriber with the given id go, with whatever was still in
    /// its outbox.
    pub fn disconnect(&mut self, id: &String)
        requires
            old(self).wf(),
        ensures
            final(self).subscribers() == disconnected(old(self).subscribers(), id@),
            final(self).state() == old(self).state(),
            final(self).wf(),
    {
        let at = self.position(id);
        proof {
            lemma_distinct_ids_kept(self.subscribers(), id@, Seq::empty());
        }
        let ghost before = self.clients.deep_view();
        if at < self.clients.len() {
            self.clients.remove(at);
            assert(self.clients.deep_view() =~= disconnected(before, id@));
        }
    }

    /// Puts `msg` at the end of every subscriber's outbox.
    pub fn broadcast(&mut self, msg: String)
        ensures
            final(self).subscribers() == delivered(old(self).subscribers(), msg@),
            final(self).state() == old(self).state(),
            old(self).wf() ==> final(self).wf(),
    {
        let ghost before = self.clients.deep_view();
        let mut i: usize = 0;
        while i < self.clients.len()
            invariant
                i <= self.clients.len(),
                self.clients.len() == before.len(),
                self.store == old(self).store,
                forall|j: int|
                    0 <= j < i ==> (#[trigger] self.clients.deep_view()[j]) == (ClientView {
                        id: before[j].id,
                        outbox: before[j].outbox.push(msg@),
                    }),
                forall|j: int|
                    i <= j < before.len() ==> (#[trigger] self.clients.deep_view()[j]) == before[j],
            decreases self.clients.len() - i,
        {
            let ghost earlier = self.clients.deep_view();
            let ghost queue = self.clients[i as int].outbox.deep_view();
            assert(earlier[i as int] == before[i as int]);
            assert(earlier[i as int].outbox == queue);
            self.clients[i].outbox.push(msg.clone());
            assert(self.clients[i as int].outbox.deep_view() =~= queue.push(msg@));
            assert(self.clients.deep_view()[i as int] == (ClientView {
                id: before[i as int].id,
                outbox: before[i as int].outbox.push(msg@),
            }));
            assert forall|j: int| 0 <= j < before.len() && j != i implies (
            #[trigger] self.clients.deep_view()[j]) == earlier[j] by {}
            i += 1;
        }
        assert(self.clients.deep_view() =~= delivered(before, msg@));
        proof {
            if old(self).wf() {
                lemma_distinct_ids_kept(before, Seq::empty(), msg@);
            }
        }
    }

    /// Puts `msg` at the end of the outbox of the subscriber with the given
    /// id.  Says whether there is such a subscriber.
    pub fn send_to(&mut self, id: &String, msg: String) -> (sent: bool)
        ensures
            sent == (position_of(old(self).subscribers(), id@) < old(self).subscribers().len()),
            final(self).state() == old(self).state(),
            sent ==> final(self).subscribers() == old(self).subscribers().update(
                position_of(old(self).subscribers(), id@),
                ClientView {
                    id: id@,
                    outbox: old(self).subscribers()[position_of(
                        old(self).subscribers(),
                        id@,
                    )].outbox.push(msg@),
                },
            ),
            !sent ==> final(self).subscribers() == old(self).subscribers(),
            old(self).wf() ==> final(self).wf(),
    {
        let at = self.position(id);
        proof {
            lemma_position_of(self.subscribers(), id@);
        }
        let ghost before = self.clients.deep_view();
        if at < self.clients.len() {
            let ghost queue = self.clients[at as int].outbox.deep_view();
            self.clients[at].outbox.push(msg);
            assert(self.clients[at as int].outbox.deep_view() =~= queue.push(msg@));
            assert(self.clients.deep_view() =~= before.update(
                at as int,
                ClientView { id: id@, outbox: queue.push(msg@) },
            ));
            assert forall|i: int, j: int|
                0 <= i < j < before.len() && distinct_ids(before) implies (
            #[trigger] self.clients.deep_view()[i]).id != (
            #[trigger] self.clients.deep_view()[j]).id by {
                assert(self.clients.deep_view()[i].id == before[i].id);
                assert(self.clients.deep_view()[j].id == before[j].id);
            }
            true
        } else {
            false
        }
    }

    /// Hands out what is in the outbox of the subscriber with the given id,
    /// oldest first, and leaves that outbox empty.  Nothing is handed out for
    /// an id that no subscriber has.
    pub fn take_outbox(&mut self, id: &String) -> (messages: Vec<String>)
        ensures
            final(self).state() == old(self).state(),
            final(self).subscribers().len() == old(self).subscribers().len(),
            position_of(old(self).subscribers(), id@) < old(self).subscribers().len() ==> {
                let at = position_of(old(self).subscribers(), id@);
                &&& messages.deep_view() == old(self).subscribers()[at].outbox
                &&& final(self).subscribers() == old(self).subscribers().update(
                    at,
                    ClientView { id: id@, outbox: Seq::empty() },
                )
            },
            position_of(old(self).subscribers(), id@) >= old(self).subscribers().len() ==> {
                &&& messages.deep_view() == Seq::<Seq<char>>::empty()
                &&& final(self).subscribers() == old(self).subscribers()
            },
            old(self).wf() ==> final(self).wf(),
    {
        let at = self.position(id);
        proof {
            lemma_position_of(self.subscribers(), id@);
        }
        let ghost before = self.clients.deep_view();
        let mut messages: Vec<String> = Vec::new();
        if at < self.clients.len() {
            let ghost queue = self.clients[at as int].outbox.deep_view();
            self.clients[at].outbox.append(&mut messages);
            assert(self.clients[at as int].outbox.deep_view() =~= queue);
            core::mem::swap(&mut self.clients[at].outbox, &mut messages);
            assert(messages.deep_view() =~= queue);
            assert(self.clients[at as int].outbox.deep_view() =~= Seq::empty());
            assert(self.clients.deep_view() =~= before.update(
                at as int,
                ClientView { id: id@, outbox: Seq::empty() },
            ));
            assert forall|i: int, j: int|
                0 <= i < j < before.len() && distinct_ids(before) implies (
            #[trigger] self.clients.deep_view()[i]).id != (
            #[trigger] self.clients.deep_view()[j]).id by {
                assert(self.clients.deep_view()[i].id == before[i].id);
                assert(self.clients.deep_view()[j].id == before[j].id);
            }
        } else {
            assert(messages.deep_view() =~= Seq::empty());
        }
        messages
    }

    /// Applies an update to the document `name` stands for.  `value` is the
    /// new value as read from the wire, `None` if it could not be read;
    /// `message` is the announcement of the new value in its wire form,
    /// `None` if it could not be brought into that form.
    ///
    /// The update is refused, with nothing changed, if the name stands for no
    /// document or the value could not be read or is one for the other
    /// document.  Else it is applied whatever the store held before: the
    /// last writer wins.  The announcement goes to every subscriber.
    pub fn update_state(
        &mut self,
        name: &String,
        value: Option<StateValue>,
        message: Option<String>,
    ) -> (applied: bool)
        requires
            old(self).state().count() < u64::MAX,
        ensures
            applied == update_accepted(name@, value),
            !applied ==> *final(self) == *old(self),
            applied ==> update_applies(*old(self), value->0, message, *final(self)),
            old(self).wf() ==> final(self).wf(),
    {
        let kind = state_kind(name);
        match (kind, value) {
            (Some(StateKind::AppState), Some(StateValue::App(state))) => {
                self.store.update(StateValue::App(state));
            },
            (Some(StateKind::InternalState), Some(StateValue::Internal(state))) => {
                self.store.update(StateValue::Internal(state));
            },
            _ => {
                return false;
            },
        }
        match message {
            Some(message) => {
                self.broadcast(message);
            },
            None => {},
        }
        true
    }

    /// Marks transcription as running.  Refused, with nothing changed, if it
    /// is running already.
    pub fn start_transcribe(&mut self) -> (started: Result<(), ()>)
        ensures
            old(self).state().internal().transcribe_running ==> started is Err && *final(self)
                == *old(self),
            !old(self).state().internal().transcribe_running ==> {
                &&& started is Ok
                &&& final(self).state().internal() == (InternalState {
                    transcribe_running: true,
                    ..old(self).state().internal()
                })
                &&& final(self).state().app() == old(self).state().app()
                &&& final(self).state().count() == old(self).state().count()
                &&& final(self).subscribers() == old(self).subscribers()
            },
    {
        self.store.start_transcribe()
    }

    /// Marks transcription as stopped.  The loop sees the flag at the top of
    /// its next cycle; a recognition call that is under way is not cut short.
    pub fn stop_transcribe(&mut self)
        ensures
            final(self).state().internal() == (InternalState {
                transcribe_running: false,
                ..old(self).state().internal()
            }),
            final(self).state().app() == old(self).state().app(),
            final(self).state().count() == old(self).state().count(),
            final(self).subscribers() == old(self).subscribers(),
    {
        self.store.stop_transcribe();
    }

    /// Says what a message from a subscriber asks for.  `request` is the
    /// message read as a request, or `None` if it could not be read as one.
    pub fn handle_websocket_message(request: &Option<WebsocketRequest>) -> (action: RequestAction)
        ensures
            action == match request {
                None => RequestAction::Malformed,
                Some(request) => action_for(request.kind@),
            },
    {
        match request {
            None => RequestAction::Malformed,
            Some(request) => {
                if request.kind == "get_appstate".to_owned() {
                    RequestAction::SendAppState
                } else if request.kind == String::new() {
                    RequestAction::MissingKind
                } else {
                    assert(request.kind@.len() != 0) by {
                        if request.kind@.len() == 0 {
                            assert(request.kind@ =~= Seq::<char>::empty());
                        }
                    }
                    RequestAction::UnknownKind
                }
            },
        }
    }

    /// The envelope for a value of the given kind.  `payload` is the value in
    /// its wire form, or the reason why it could not be brought into that
    /// form; then the envelope carries the reason and is flagged as an error.
    pub fn to_ws_response(kind: String, payload: Result<String, String>) -> (response:
        WebsocketResponse)
        ensures
            envelope(kind@, payload, response),
            response.kind == kind,
    {
        match payload {
            Ok(data) => WebsocketResponse { kind, data, is_error: false },
            Err(reason) => WebsocketResponse { kind, data: reason, is_error: true },
        }
    }
}

} // verus!
