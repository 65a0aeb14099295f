//! The server-owned model menu: the workbench snapshot pushed to every
//! session, and the per-profile model memory.
//!
//! The server owns all menu state and the UI only renders it; in particular
//! `chat_ready` is computed here. Every push is a complete snapshot, and the
//! newest one is retained, so a session that connects later sends the current
//! menu at once. A refused mutation is a value returned to the caller, and
//! leaves the state untouched.

use crate::json::{entries, holds_entries, object_bytes, object_of};
use crate::text::{
    clone_option, clone_texts, concat, debug, debug_text, same_option_text, same_text, same_texts,
    text_option, texts,
};
use vstd::prelude::*;

verus! {

/// Name of the persisted server-state file, in the server's state directory.
pub const WORKSHOP_STATE_FILE: &'static str = "workshop-state.json";

/// One entry of the model catalog, as far as the menu reads it.
#[derive(Debug, PartialEq, Eq)]
pub struct CatalogModel {
    /// The model's id, where the entry has one.
    pub id: Option<String>,
    /// Whether the model can chat.
    pub chat: bool,
}

/// [`CatalogModel`] over plain values.
pub struct ModelEntry {
    pub id: Option<Seq<char>>,
    pub chat: bool,
}

/// The entries of a list of models.
pub open spec fn model_entries(models: Seq<CatalogModel>) -> Seq<ModelEntry> {
    Seq::new(
        models.len(),
        |i: int| ModelEntry { id: text_option(models[i].id), chat: models[i].chat },
    )
}

/// The newest catalog push, none before the first.
pub open spec fn catalog_entries(models: Option<Vec<CatalogModel>>) -> Option<Seq<ModelEntry>> {
    match models {
        Some(list) => Some(model_entries(list@)),
        None => None,
    }
}

/// The chat model catalog channel: the newest push, retained.
#[derive(Debug)]
pub struct CatalogBus {
    latest: Option<Vec<CatalogModel>>,
}

impl CatalogBus {
    /// The newest push.
    pub closed spec fn entries(&self) -> Option<Seq<ModelEntry>> {
        catalog_entries(self.latest)
    }

    /// A channel without a push.
    pub fn new() -> (bus: CatalogBus)
        ensures
            bus.entries() is None,
    {
        CatalogBus { latest: None }
    }

    /// Publishes a catalog; it replaces the one before.
    pub fn publish(&mut self, models: Vec<CatalogModel>)
        ensures
            final(self).entries() == Some(model_entries(models@)),
    {
        self.latest = Some(models);
    }

    /// The newest push, retained for sessions that connect later.
    pub fn latest(&self) -> (models: Option<&Vec<CatalogModel>>)
        ensures
            models is None <==> self.entries() is None,
            models matches Some(list) ==> self.entries() == Some(model_entries(list@)),
    {
        match &self.latest {
            Some(list) => Some(list),
            None => None,
        }
    }
}

/// The entry is that of the chat model `id`.
pub open spec fn is_chat_model(entry: ModelEntry, id: Seq<char>) -> bool {
    entry.chat && entry.id == Some(id)
}

/// Whether the catalog holds a chat model of that id.
pub open spec fn holds_model(models: Seq<ModelEntry>, id: Seq<char>) -> bool {
    exists|i: int| 0 <= i < models.len() && is_chat_model(#[trigger] models[i], id)
}

/// The id of the first chat model, from `i` on, that has one.
pub open spec fn first_id(models: Seq<ModelEntry>, i: int) -> Option<Seq<char>>
    decreases models.len() - i,
{
    if i < 0 || i >= models.len() {
        None
    } else if models[i].chat && models[i].id is Some {
        models[i].id
    } else {
        first_id(models, i + 1)
    }
}

/// Whether the catalog holds a chat model at all.
pub open spec fn holds_chat(models: Seq<ModelEntry>) -> bool {
    exists|i: int| 0 <= i < models.len() && (#[trigger] models[i]).chat
}

/// The workbench snapshot as it is pushed to every session.
#[derive(Debug, PartialEq, Eq)]
pub struct WorkbenchSnapshot {
    /// Every gateway profile name, in gateway order.
    pub profiles: Vec<String>,
    /// The profile the gateway is serving, once known.
    pub active: Option<String>,
    /// The profile a switch is loading, while one is in flight.
    pub switching: Option<String>,
    /// The model chat requests go to, once one is selected.
    pub selected_model: Option<String>,
    /// Whether a chat can be sent.
    pub chat_ready: bool,
}

/// [`WorkbenchSnapshot`] over plain values.
pub struct SnapshotModel {
    pub profiles: Seq<Seq<char>>,
    pub active: Option<Seq<char>>,
    pub switching: Option<Seq<char>>,
    pub selected_model: Option<Seq<char>>,
    pub chat_ready: bool,
}

impl View for WorkbenchSnapshot {
    type V = SnapshotModel;

    open spec fn view(&self) -> SnapshotModel {
        SnapshotModel {
            profiles: texts(self.profiles@),
            active: text_option(self.active),
            switching: text_option(self.switching),
            selected_model: text_option(self.selected_model),
            chat_ready: self.chat_ready,
        }
    }
}

impl Clone for WorkbenchSnapshot {
    fn clone(&self) -> (copy: WorkbenchSnapshot)
        ensures
            copy@ == self@,
    {
        WorkbenchSnapshot {
            profiles: clone_texts(&self.profiles),
            active: clone_option(&self.active),
            switching: clone_option(&self.switching),
            selected_model: clone_option(&self.selected_model),
            chat_ready: self.chat_ready,
        }
    }
}

fn same_snapshot(a: &WorkbenchSnapshot, b: &WorkbenchSnapshot) -> (same: bool)
    ensures
        same == (a@ == b@),
{
    same_texts(&a.profiles, &b.profiles) && same_option_text(&a.active, &b.active)
        && same_option_text(&a.switching, &b.switching) && same_option_text(
        &a.selected_model,
        &b.selected_model,
    ) && a.chat_ready == b.chat_ready
}

/// The models of a list of snapshots.
pub open spec fn snapshot_models(list: Seq<WorkbenchSnapshot>) -> Seq<SnapshotModel> {
    Seq::new(list.len(), |i: int| list[i]@)
}

/// A refused menu mutation: a state to report, not an error to escalate.
#[derive(Debug, Clone, PartialEq, Eq)]
#[non_exhaustive]
pub enum MenuRefusal {
    /// The requested model id is not in the current catalog.
    UnknownModel {
        /// The id that was requested.
        id: String,
    },
    /// A profile switch is already in flight; switches are single-flight.
    SwitchInProgress {
        /// The target of the switch already running.
        name: String,
    },
}

impl MenuRefusal {
    /// What the refusal says.
    pub open spec fn text(&self) -> Seq<char> {
        match *self {
            MenuRefusal::UnknownModel { id } => "unknown model "@ + debug_text(id@)
                + ": not in the current catalog"@,
            MenuRefusal::SwitchInProgress { name } => "a switch to "@ + debug_text(name@)
                + " is already in progress"@,
        }
    }

    /// What the refusal says.
    pub fn to_string(&self) -> (text: String)
        ensures
            text@ == self.text(),
    {
        match self {
            MenuRefusal::UnknownModel { id } => {
                let quoted = debug(id.as_str());
                let mut text = concat("unknown model ", quoted.as_str());
                text.push_str(": not in the current catalog");
                text
            },
            MenuRefusal::SwitchInProgress { name } => {
                let quoted = debug(name.as_str());
                let mut text = concat("a switch to ", quoted.as_str());
                text.push_str(" is already in progress");
                text
            },
        }
    }
}

/// How a profile switch ended, reported by whoever ran it.
#[derive(Debug, Clone, Copy, PartialEq, Eq, Structural)]
pub enum SwitchOutcome {
    /// The gateway finished loading the target profile.
    Completed,
    /// The switch failed; the previously active profile still serves.
    Failed,
}

/// One serialized memory snapshot awaiting its write.
#[derive(Debug, PartialEq, Eq)]
pub struct PendingWrite {
    /// Where the memory persists.
    pub path: String,
    /// The contents of the state file.
    pub bytes: Vec<u8>,
}

/// A pending write reads back as the memory.
pub open spec fn reads_back(pending: Option<PendingWrite>, memory: Map<Seq<char>, Seq<char>>) -> bool {
    pending matches Some(write) ==> holds_entries(write.bytes@, "last_selected"@, memory)
}

/// A pending write over plain values.
pub open spec fn write_model(pending: Option<PendingWrite>) -> Option<(Seq<char>, Seq<u8>)> {
    match pending {
        Some(w) => Some((w.path@, w.bytes@)),
        None => None,
    }
}

/// The menu: its state, the catalog it is validated against, the newest
/// snapshot, and the snapshots not yet handed to the sessions.
#[derive(Debug)]
pub struct MenuBus {
    profiles: Vec<String>,
    active: Option<String>,
    switching: Option<String>,
    selected_model: Option<String>,
    gateway_reachable: bool,
    last_selected: Vec<(String, String)>,
    memory_path: Option<String>,
    catalog: CatalogBus,
    latest: Option<WorkbenchSnapshot>,
    outbox: Vec<WorkbenchSnapshot>,
}

/// [`MenuBus`] over plain values.
#[verifier::ext_equal]
pub struct MenuModel {
    /// Every gateway profile name, in gateway order.
    pub profiles: Seq<Seq<char>>,
    /// The profile the gateway is serving, once known.
    pub active: Option<Seq<char>>,
    /// The profile a switch is loading, while one is in flight.
    pub switching: Option<Seq<char>>,
    /// The model chat requests go to, once one is selected.
    pub selected: Option<Seq<char>>,
    /// The heartbeat's verdict on the gateway.
    pub reachable: bool,
    /// The remembered model per profile name.
    pub memory: Map<Seq<char>, Seq<char>>,
    /// Where the memory persists; none disables persistence.
    pub memory_path: Option<Seq<char>>,
    /// The newest catalog push.
    pub catalog: Option<Seq<ModelEntry>>,
    /// The newest snapshot.
    pub latest: Option<SnapshotModel>,
    /// The snapshots published and not yet handed on, oldest first.
    pub outbox: Seq<SnapshotModel>,
}

/// The models of the catalog, none before its first push.
pub open spec fn models_of(m: MenuModel) -> Seq<ModelEntry> {
    match m.catalog {
        Some(models) => models,
        None => Seq::empty(),
    }
}

/// Whether a chat can be sent: the catalog holds a chat model, one is
/// selected, no switch is in flight, and the gateway is reachable.
pub open spec fn chat_ready(m: MenuModel) -> bool {
    holds_chat(models_of(m)) && m.selected is Some && m.switching is None && m.reachable
}

/// The snapshot of the menu.
pub open spec fn snapshot_of(m: MenuModel) -> SnapshotModel {
    SnapshotModel {
        profiles: m.profiles,
        active: m.active,
        switching: m.switching,
        selected_model: m.selected,
        chat_ready: chat_ready(m),
    }
}

/// The menu after it published its snapshot.
pub open spec fn publish(m: MenuModel) -> MenuModel {
    MenuModel { latest: Some(snapshot_of(m)), outbox: m.outbox.push(snapshot_of(m)), ..m }
}

/// The menu after `id` was recorded as the remembered model of `profile`.
pub open spec fn remembered(m: MenuModel, profile: Seq<char>, id: Seq<char>) -> MenuModel {
    MenuModel { memory: m.memory.insert(profile, id), ..m }
}

/// The write of the memory, where it persists.
pub open spec fn memory_write(m: MenuModel) -> Option<(Seq<char>, Seq<u8>)> {
    match m.memory_path {
        Some(path) => Some((path, object_of("last_selected"@, m.memory))),
        None => None,
    }
}

/// The model that a profile starts with: the remembered one where the catalog
/// still holds it, else the first chat model.
pub open spec fn choice_for(m: MenuModel, profile: Seq<char>) -> Option<Seq<char>> {
    if m.memory.contains_key(profile) && holds_model(models_of(m), m.memory[profile]) {
        Some(m.memory[profile])
    } else {
        first_id(models_of(m), 0)
    }
}

/// The menu after the choice for `profile` was selected and remembered.
pub open spec fn selected_for(m: MenuModel, profile: Seq<char>) -> MenuModel {
    let chosen = MenuModel { selected: choice_for(m, profile), ..m };
    match choice_for(m, profile) {
        Some(id) => remembered(chosen, profile, id),
        None => chosen,
    }
}

/// The write that goes with the selection for a profile.
pub open spec fn write_for(m: MenuModel, profile: Seq<char>) -> Option<(Seq<char>, Seq<u8>)> {
    if choice_for(m, profile) is Some {
        memory_write(selected_for(m, profile))
    } else {
        None
    }
}

/// The menu after a boot-time selection was restored.
pub open spec fn restored(m: MenuModel) -> MenuModel {
    if m.selected is Some {
        m
    } else {
        let chosen = match m.active {
            Some(profile) => selected_for(m, profile),
            None => MenuModel { selected: first_id(models_of(m), 0), ..m },
        };
        if chosen.selected is Some {
            publish(chosen)
        } else {
            chosen
        }
    }
}

/// The menu after its selection was revalidated against the catalog: a model
/// that the catalog no longer holds is no longer selected, and the snapshot is
/// published where it changed.
pub open spec fn reconciled(m: MenuModel) -> MenuModel {
    let valid = MenuModel {
        selected: if m.selected is Some && !holds_model(models_of(m), m.selected->0) {
            None
        } else {
            m.selected
        },
        ..m
    };
    if m.latest == Some(snapshot_of(valid)) {
        valid
    } else {
        publish(valid)
    }
}

impl View for MenuBus {
    type V = MenuModel;

    closed spec fn view(&self) -> MenuModel {
        MenuModel {
            profiles: texts(self.profiles@),
            active: text_option(self.active),
            switching: text_option(self.switching),
            selected: text_option(self.selected_model),
            reachable: self.gateway_reachable,
            memory: entries(self.last_selected@),
            memory_path: text_option(self.memory_path),
            catalog: self.catalog.entries(),
            latest: match self.latest {
                Some(s) => Some(s@),
                None => None,
            },
            outbox: snapshot_models(self.outbox@),
        }
    }
}

/// Whether the catalog `models` hold a chat model whose id is `id`.
pub fn models_contain(models: &Vec<CatalogModel>, id: &str) -> (found: bool)
    ensures
        found == holds_model(model_entries(models@), id@),
{
    for i in 0..models.len()
        invariant
            forall|k: int|
                0 <= k < i ==> !is_chat_model(#[trigger] model_entries(models@)[k], id@),
    {
        if models[i].chat {
            match &models[i].id {
                Some(own) => {
                    if same_text(own.as_str(), id) {
                        assert(is_chat_model(model_entries(models@)[i as int], id@));
                        return true;
                    }
                },
                None => {},
            }
        }
    }
    false
}

/// The id of the first chat model, when any has one.
#[verifier::loop_isolation(false)]
pub fn first_model_id(models: &Vec<CatalogModel>) -> (id: Option<String>)
    ensures
        text_option(id) == first_id(model_entries(models@), 0),
        match id {
            Some(text) => exists|k: int|
                0 <= k < models@.len() && (#[trigger] models@[k]).chat && text_option(models@[k].id)
                    == Some(text@) && forall|j: int|
                    0 <= j < k ==> !((#[trigger] models@[j]).chat && models@[j].id is Some),
            None => forall|j: int|
                0 <= j < models@.len() ==> !((#[trigger] models@[j]).chat && models@[j].id is Some),
        },
{
    proof {
        let plain = model_entries(models@);
        lemma_first_id_least(plain, 0);
        assert forall|j: int| 0 <= j < models@.len() implies (#[trigger] models@[j]).chat
            == plain[j].chat && text_option(models@[j].id) == plain[j].id by {}
        if first_id(plain, 0) is Some {
            let k = choose|k: int|
                0 <= k < plain.len() && (#[trigger] plain[k]).chat && plain[k].id == first_id(
                    plain,
                    0,
                ) && forall|j: int|
                    0 <= j < k ==> !((#[trigger] plain[j]).chat && plain[j].id is Some);
            assert(models@[k].chat);
        }
    }
    for i in 0..models.len()
        invariant
            first_id(model_entries(models@), 0) == first_id(model_entries(models@), i as int),
    {
        if models[i].chat {
            match &models[i].id {
                Some(own) => {
                    return Some(own.clone());
                },
                None => {},
            }
        }
    }
    None
}

/// Whether any model can chat.
pub fn any_chat(models: &Vec<CatalogModel>) -> (found: bool)
    ensures
        found == holds_chat(model_entries(models@)),
{
    for i in 0..models.len()
        invariant
            forall|k: int| 0 <= k < i ==> !(#[trigger] model_entries(models@)[k]).chat,
    {
        if models[i].chat {
            assert(model_entries(models@)[i as int].chat);
            return true;
        }
    }
    false
}

fn lookup(pairs: &Vec<(String, String)>, key: &str) -> (value: Option<String>)
    ensures
        value is Some <==> entries(pairs@).contains_key(key@),
        value matches Some(v) ==> v@ == entries(pairs@)[key@],
{
    let mut found: Option<usize> = None;
    for i in 0..pairs.len()
        invariant
            found is Some <==> entries(pairs@.take(i as int)).contains_key(key@),
            found matches Some(j) ==> j < pairs@.len() && pairs@[j as int].1@ == entries(
                pairs@.take(i as int),
            )[key@],
    {
        assert(pairs@.take(i + 1).drop_last() == pairs@.take(i as int));
        if same_text(pairs[i].0.as_str(), key) {
            found = Some(i);
        }
    }
    assert(pairs@.take(pairs@.len() as int) == pairs@);
    match found {
        Some(j) => Some(pairs[j].1.clone()),
        None => None,
    }
}

/// The pairs with `value` under `key`, in place of what stood there.
fn insert(pairs: &Vec<(String, String)>, key: &str, value: &str) -> (grown: Vec<(String, String)>)
    ensures
        entries(grown@) == entries(pairs@).insert(key@, value@),
{
    let mut kept: Vec<(String, String)> = Vec::new();
    assert(entries(kept@) =~= entries(pairs@.take(0)).remove(key@));
    for i in 0..pairs.len()
        invariant
            entries(kept@) == entries(pairs@.take(i as int)).remove(key@),
    {
        assert(pairs@.take(i + 1).drop_last() == pairs@.take(i as int));
        if !same_text(pairs[i].0.as_str(), key) {
            let ghost before = kept@;
            kept.push((pairs[i].0.clone(), pairs[i].1.clone()));
            assert(kept@.drop_last() == before);
        }
        assert(entries(kept@) =~= entries(pairs@.take(i + 1)).remove(key@));
    }
    assert(pairs@.take(pairs@.len() as int) == pairs@);
    let ghost before = kept@;
    kept.push((key.to_owned(), value.to_owned()));
    assert(kept@.drop_last() == before);
    assert(entries(kept@) =~= entries(pairs@).insert(key@, value@));
    kept
}

impl MenuBus {
    /// Creates a menu with no snapshot, with the given per-profile model
    /// memory, which persists at `memory_path` when one is given.
    pub fn new(
        catalog: CatalogBus,
        last_selected: Vec<(String, String)>,
        memory_path: Option<String>,
    ) -> (menu: MenuBus)
        ensures
            menu@ == (MenuModel {
                profiles: Seq::empty(),
                active: None,
                switching: None,
                selected: None,
                reachable: false,
                memory: entries(last_selected@),
                memory_path: text_option(memory_path),
                catalog: catalog.entries(),
                latest: None,
                outbox: Seq::empty(),
            }),
    {
        let menu = MenuBus {
            profiles: Vec::new(),
            active: None,
            switching: None,
            selected_model: None,
            gateway_reachable: false,
            last_selected,
            memory_path,
            catalog,
            latest: None,
            outbox: Vec::new(),
        };
        assert(menu@.profiles =~= Seq::<Seq<char>>::empty());
        assert(menu@.outbox =~= Seq::<SnapshotModel>::empty());
        menu
    }

    /// The most recently published snapshot, retained so a session connecting
    /// later can send the current menu.
    #[must_use]
    pub fn latest(&self) -> (snapshot: Option<WorkbenchSnapshot>)
        ensures
            snapshot is Some <==> self@.latest is Some,
            snapshot matches Some(s) ==> s@ == self@.latest->0,
    {
        match &self.latest {
            Some(s) => Some(s.clone()),
            None => None,
        }
    }

    /// Takes the snapshots published since the last call, oldest first.
    pub fn take_published(&mut self) -> (published: Vec<WorkbenchSnapshot>)
        ensures
            snapshot_models(published@) == old(self)@.outbox,
            final(self)@ == (MenuModel { outbox: Seq::empty(), ..old(self)@ }),
    {
        let mut published: Vec<WorkbenchSnapshot> = Vec::new();
        std::mem::swap(&mut published, &mut self.outbox);
        assert(self@.outbox =~= Seq::<SnapshotModel>::empty());
        published
    }

    /// Publishes a catalog to the channel that selections are validated
    /// against, and reconciles the menu with it.
    pub fn push_models_catalog(&mut self, models: Vec<CatalogModel>)
        ensures
            final(self)@ == reconciled(
                (MenuModel { catalog: Some(model_entries(models@)), ..old(self)@ }),
            ),
    {
        self.catalog.publish(models);
        self.reconcile_catalog();
    }

    /// Selects `id` as the chat model and publishes a fresh snapshot,
    /// remembering the choice for the active profile. An id that is not in the
    /// current catalog is refused and not applied.
    pub fn set_selected(&mut self, id: &str) -> (outcome: Result<
        Option<PendingWrite>,
        MenuRefusal,
    >)
        ensures
            !holds_model(models_of(old(self)@), id@) ==> {
                &&& outcome matches Err(MenuRefusal::UnknownModel { id: refused })
                &&& refused@ == id@
                &&& final(self)@ == old(self)@
            },
            holds_model(models_of(old(self)@), id@) ==> {
                let chosen = MenuModel { selected: Some(id@), ..old(self)@ };
                match old(self)@.active {
                    Some(profile) => {
                        &&& outcome is Ok
                        &&& final(self)@ == publish(remembered(chosen, profile, id@))
                        &&& write_model(outcome->Ok_0) == memory_write(
                            remembered(chosen, profile, id@),
                        )
                        &&& reads_back(outcome->Ok_0, final(self)@.memory)
                    },
                    None => {
                        &&& outcome is Ok
                        &&& final(self)@ == publish(chosen)
                        &&& outcome->Ok_0 is None
                    },
                }
            },
    {
        if !self.catalog_has(id) {
            return Err(MenuRefusal::UnknownModel { id: id.to_owned() });
        }
        self.selected_model = Some(id.to_owned());
        let active = clone_option(&self.active);
        let pending = match active {
            Some(profile) => self.remember(profile.as_str(), id),
            None => None,
        };
        self.publish();
        Ok(pending)
    }

    /// Marks a switch to profile `name` as in flight and publishes a fresh
    /// snapshot. It is refused while another switch runs: the gateway loads
    /// one profile at a time.
    pub fn begin_switch(&mut self, name: &str) -> (outcome: Result<(), MenuRefusal>)
        ensures
            match old(self)@.switching {
                Some(running) => {
                    &&& outcome matches Err(MenuRefusal::SwitchInProgress { name: refused })
                    &&& refused@ == running
                    &&& final(self)@ == old(self)@
                },
                None => {
                    &&& outcome is Ok
                    &&& final(self)@ == publish(
                        (MenuModel { switching: Some(name@), ..old(self)@ }),
                    )
                },
            },
    {
        match &self.switching {
            Some(running) => {
                return Err(MenuRefusal::SwitchInProgress { name: running.clone() });
            },
            None => {},
        }
        self.switching = Some(name.to_owned());
        self.publish();
        Ok(())
    }

    /// Ends the in-flight switch and publishes a fresh snapshot. On completion
    /// the target becomes the active profile and the selection moves to the
    /// remembered model for it when the catalog still holds that model, else
    /// to the first catalog model. On failure the previous profile stays
    /// active. A finish with no switch in flight is ignored.
    pub fn finish_switch(&mut self, outcome: SwitchOutcome) -> (pending: Option<PendingWrite>)
        ensures
            match old(self)@.switching {
                None => final(self)@ == old(self)@ && pending is None,
                Some(target) => {
                    let ended = MenuModel { switching: None, ..old(self)@ };
                    match outcome {
                        SwitchOutcome::Failed => final(self)@ == publish(ended) && pending is None,
                        SwitchOutcome::Completed => {
                            let live = MenuModel { active: Some(target), ..ended };
                            &&& final(self)@ == publish(selected_for(live, target))
                            &&& write_model(pending) == write_for(live, target)
                            &&& reads_back(pending, final(self)@.memory)
                        },
                    }
                },
            },
    {
        let target = match self.switching.take() {
            Some(target) => target,
            None => {
                return None;
            },
        };
        let mut pending: Option<PendingWrite> = None;
        match outcome {
            SwitchOutcome::Completed => {
                self.active = Some(target.clone());
                pending = self.select_for_profile(target.as_str());
            },
            SwitchOutcome::Failed => {},
        }
        self.publish();
        pending
    }

    /// Restores a boot-time selection: when nothing is selected, selects the
    /// remembered model for the active profile when the catalog still holds
    /// it, else the first catalog model, and publishes a fresh snapshot. With
    /// a selection already applied, or no selectable catalog model, nothing is
    /// published.
    pub fn restore_selection(&mut self) -> (pending: Option<PendingWrite>)
        ensures
            final(self)@ == restored(old(self)@),
            write_model(pending) == if old(self)@.selected is None && old(self)@.active is Some {
                write_for(old(self)@, old(self)@.active->0)
            } else {
                None
            },
            reads_back(pending, final(self)@.memory),
    {
        if self.selected_model.is_some() {
            return None;
        }
        let active = clone_option(&self.active);
        let pending = match active {
            Some(profile) => self.select_for_profile(profile.as_str()),
            None => {
                self.selected_model = match self.catalog.latest() {
                    Some(models) => first_model_id(models),
                    None => None,
                };
                assert(self@ =~= (MenuModel {
                    selected: first_id(models_of(old(self)@), 0),
                    ..old(self)@
                }));
                None
            },
        };
        if self.selected_model.is_none() {
            return None;
        }
        self.publish();
        pending
    }

    /// Records the heartbeat's verdict on the gateway and publishes a fresh
    /// snapshot.
    pub fn set_gateway_reachable(&mut self, reachable: bool)
        ensures
            final(self)@ == publish((MenuModel { reachable, ..old(self)@ })),
    {
        self.gateway_reachable = reachable;
        self.publish();
    }

    /// Records the gateway's profile list and active profile and publishes a
    /// fresh snapshot. The selection is untouched: catalog reconciliation owns
    /// selection validity.
    pub fn set_profiles(&mut self, profiles: Vec<String>, active: Option<String>)
        ensures
            final(self)@ == publish(
                (MenuModel {
                    profiles: texts(profiles@),
                    active: text_option(active),
                    ..old(self)@
                }),
            ),
    {
        self.profiles = profiles;
        self.active = active;
        self.publish();
    }

    /// Revalidates the selection against the current catalog and republishes
    /// the snapshot when it changed.
    pub fn reconcile_catalog(&mut self)
        ensures
            final(self)@ == reconciled(old(self)@),
    {
        let stale = match &self.selected_model {
            Some(selected) => !self.catalog_has(selected.as_str()),
            None => false,
        };
        if stale {
            self.selected_model = None;
        }
        let snapshot = self.snapshot();
        let unchanged = match &self.latest {
            Some(latest) => same_snapshot(latest, &snapshot),
            None => false,
        };
        if !unchanged {
            self.send(snapshot);
        }
    }

    /// Applies the remembered-else-first selection rule for `profile`, records
    /// the choice, and returns its pending write when a model was selected.
    fn select_for_profile(&mut self, profile: &str) -> (pending: Option<PendingWrite>)
        ensures
            final(self)@ == selected_for(old(self)@, profile@),
            write_model(pending) == write_for(old(self)@, profile@),
            reads_back(pending, final(self)@.memory),
    {
        let known = lookup(&self.last_selected, profile);
        let kept = match known {
            Some(id) => if self.catalog_has(id.as_str()) {
                Some(id)
            } else {
                None
            },
            None => None,
        };
        let chosen = match kept {
            Some(id) => Some(id),
            None => match self.catalog.latest() {
                Some(models) => first_model_id(models),
                None => None,
            },
        };
        assert(text_option(chosen) == choice_for(self@, profile@));
        self.selected_model = clone_option(&chosen);
        match chosen {
            Some(id) => self.remember(profile, id.as_str()),
            None => None,
        }
    }

    /// Records `id` as the remembered model for `profile` and snapshots the
    /// serialized memory as a write for the caller to perform; none when
    /// persistence is disabled.
    fn remember(&mut self, profile: &str, id: &str) -> (pending: Option<PendingWrite>)
        ensures
            final(self)@ == remembered(old(self)@, profile@, id@),
            write_model(pending) == memory_write(final(self)@),
            reads_back(pending, final(self)@.memory),
    {
        self.last_selected = insert(&self.last_selected, profile, id);
        match &self.memory_path {
            Some(path) => Some(
                PendingWrite {
                    path: path.clone(),
                    bytes: object_bytes("last_selected", &self.last_selected),
                },
            ),
            None => None,
        }
    }

    /// Builds the snapshot of the menu, computing `chat_ready` from its four
    /// conditions.
    pub fn snapshot(&self) -> (snapshot: WorkbenchSnapshot)
        ensures
            snapshot@ == snapshot_of(self@),
    {
        let catalog_has_chat = match self.catalog.latest() {
            Some(models) => any_chat(models),
            None => false,
        };
        WorkbenchSnapshot {
            profiles: clone_texts(&self.profiles),
            active: clone_option(&self.active),
            switching: clone_option(&self.switching),
            selected_model: clone_option(&self.selected_model),
            chat_ready: catalog_has_chat && self.selected_model.is_some()
                && self.switching.is_none() && self.gateway_reachable,
        }
    }

    fn publish(&mut self)
        ensures
            final(self)@ == publish(old(self)@),
    {
        let snapshot = self.snapshot();
        self.send(snapshot);
    }

    fn send(&mut self, snapshot: WorkbenchSnapshot)
        ensures
            final(self)@ == (MenuModel {
                latest: Some(snapshot@),
                outbox: old(self)@.outbox.push(snapshot@),
                ..old(self)@
            }),
    {
        self.latest = Some(snapshot.clone());
        self.outbox.push(snapshot);
        assert(self@.outbox =~= old(self)@.outbox.push(snapshot@));
    }

    /// Whether `id` names a chat model in the current catalog.
    pub fn catalog_has(&self, id: &str) -> (found: bool)
        ensures
            found == holds_model(models_of(self@), id@),
    {
        match self.catalog.latest() {
            Some(models) => models_contain(models, id),
            None => false,
        }
    }
}

/// A selected model is one that the catalog holds.
pub open spec fn selection_valid(m: MenuModel) -> bool {
    m.selected matches Some(id) ==> holds_model(models_of(m), id)
}

proof fn lemma_first_id(models: Seq<ModelEntry>, i: int)
    requires
        0 <= i,
    ensures
        first_id(models, i) matches Some(id) ==> holds_model(models, id),
        first_id(models, i) is None ==> forall|k: int, id: Seq<char>|
            i <= k < models.len() ==> !#[trigger] is_chat_model(models[k], id),
    decreases models.len() - i,
{
    if i < models.len() {
        if models[i].chat && models[i].id is Some {
            assert(is_chat_model(models[i], models[i].id->0));
        } else {
            lemma_first_id(models, i + 1);
            if first_id(models, i) is None {
                assert forall|k: int, id: Seq<char>| i <= k < models.len() implies !#[trigger] is_chat_model(
                    models[k],
                    id,
                ) by {
                    if k == i {
                    }
                }
            }
        }
    }
}

/// Whatever the catalog was, the menu is reconciled with it: the selection is
/// valid afterwards, and the newest snapshot is that of the state.
pub proof fn law_reconciled_selection_is_valid(m: MenuModel)
    ensures
        selection_valid(reconciled(m)),
        reconciled(m).latest == Some(snapshot_of(reconciled(m))),
        selection_valid(m) ==> reconciled(m).selected == m.selected,
{
}

/// No mutation but a catalog push can make the selection invalid.
pub proof fn law_selection_stays_valid(m: MenuModel, profile: Seq<char>, id: Seq<char>)
    requires
        selection_valid(m),
    ensures
        selection_valid(selected_for(m, profile)),
        selection_valid(restored(m)),
        holds_model(models_of(m), id) ==> selection_valid(
            (MenuModel { selected: Some(id), ..m }),
        ),
        selection_valid(publish(m)),
{
    lemma_first_id(models_of(m), 0);
}

/// A chat is ready exactly where a chat model is in the catalog, a model is
/// selected, no switch is in flight, and the gateway is reachable; every
/// published snapshot says so of the state it was taken of.
pub proof fn law_chat_ready(m: MenuModel)
    ensures
        publish(m).latest == Some(snapshot_of(m)),
        snapshot_of(m).chat_ready <==> (exists|i: int|
            0 <= i < models_of(m).len() && (#[trigger] models_of(m)[i]).chat) && m.selected is Some
            && m.switching is None && m.reachable,
{
}

/// The choice for a profile: where the catalog holds a chat model with an id,
/// one is chosen, the remembered one first, and it is remembered; where it
/// holds none, nothing is chosen and the memory is kept.
pub proof fn law_choice_for_profile(m: MenuModel, profile: Seq<char>)
    ensures
        choice_for(m, profile) matches Some(id) ==> holds_model(models_of(m), id) && selected_for(
            m,
            profile,
        ).memory[profile] == id,
        choice_for(m, profile) is None ==> selected_for(m, profile).memory == m.memory
            && forall|id: Seq<char>| !#[trigger] holds_model(models_of(m), id),
        m.memory.contains_key(profile) && holds_model(models_of(m), m.memory[profile])
            ==> choice_for(m, profile) == Some(m.memory[profile]),
        forall|other: Seq<char>|
            other != profile ==> (selected_for(m, profile).memory.contains_key(other)
                == m.memory.contains_key(other)) && (m.memory.contains_key(other)
                ==> #[trigger] selected_for(m, profile).memory[other] == m.memory[other]),
{
    lemma_first_id(models_of(m), 0);
}

/// Restoring is a no-op once a model is selected, and restoring twice is
/// restoring once.
pub proof fn law_restore_is_idempotent(m: MenuModel)
    ensures
        m.selected is Some ==> restored(m) == m,
        restored(restored(m)) == restored(m),
{
    if m.selected is None && restored(m).selected is None {
        match m.active {
            Some(profile) => {
                assert(choice_for(m, profile) is None);
                assert(selected_for(m, profile) == m);
            },
            None => {},
        }
    }
}

/// What is found first is the id at the least index that has one and can chat.
proof fn lemma_first_id_least(models: Seq<ModelEntry>, i: int)
    requires
        0 <= i,
    ensures
        match first_id(models, i) {
            Some(id) => exists|k: int|
                i <= k < models.len() && (#[trigger] models[k]).chat && models[k].id == Some(id)
                    && forall|j: int|
                    i <= j < k ==> !((#[trigger] models[j]).chat && models[j].id is Some),
            None => forall|j: int|
                i <= j < models.len() ==> !((#[trigger] models[j]).chat && models[j].id is Some),
        },
    decreases models.len() - i,
{
    if i < models.len() && !(models[i].chat && models[i].id is Some) {
        lemma_first_id_least(models, i + 1);
        if first_id(models, i) is Some {
            let id = first_id(models, i)->0;
            let k = choose|k: int|
                i + 1 <= k < models.len() && (#[trigger] models[k]).chat && models[k].id == Some(id)
                    && forall|j: int|
                    i + 1 <= j < k ==> !((#[trigger] models[j]).chat && models[j].id is Some);
            assert(models[k].chat);
        }
    } else if i < models.len() {
        assert(models[i].chat);
    }
}

/// The model that the catalog lists first is the one that is found first.
proof fn lemma_first_id_is(models: Seq<ModelEntry>, i: int, k: int)
    requires
        0 <= i <= k < models.len(),
        models[k].chat && models[k].id is Some,
        forall|j: int| i <= j < k ==> !((#[trigger] models[j]).chat && models[j].id is Some),
    ensures
        first_id(models, i) == models[k].id,
    decreases k - i,
{
    if i < k {
        assert(!(models[i].chat && models[i].id is Some));
        lemma_first_id_is(models, i + 1, k);
    }
}

/// A profile without a remembered model that the catalog still holds starts
/// with the catalog's first: the model at the least index that can chat and
/// has an id. That is what a completed switch to the profile selects, what a
/// restored selection is, with and without an active profile, and what is
/// remembered for the profile.
pub proof fn law_the_first_chat_model_is_chosen(
    m: MenuModel,
    models: Seq<ModelEntry>,
    profile: Seq<char>,
    k: int,
)
    requires
        m.catalog == Some(models),
        0 <= k < models.len(),
        models[k].chat && models[k].id is Some,
        forall|j: int| 0 <= j < k ==> !((#[trigger] models[j]).chat && models[j].id is Some),
        m.memory.contains_key(profile) ==> forall|j: int|
            0 <= j < models.len() ==> !((#[trigger] models[j]).chat && models[j].id == Some(
                m.memory[profile],
            )),
    ensures
        first_id(models, 0) == models[k].id,
        choice_for(m, profile) == models[k].id,
        selected_for(m, profile).selected == models[k].id,
        selected_for(m, profile).memory == m.memory.insert(profile, models[k].id->0),
        m.selected is None && m.active == Some(profile) ==> restored(m).selected == models[k].id
            && restored(m).memory == m.memory.insert(profile, models[k].id->0),
        m.selected is None && m.active is None ==> restored(m).selected == models[k].id
            && restored(m).memory == m.memory,
{
    lemma_first_id_is(models, 0, k);
}

/// A profile whose remembered model the catalog still holds gets that model,
/// wherever in the catalog it stands; a catalog without a chat model gives
/// none, and neither does a menu without a catalog.
pub proof fn law_the_remembered_model_is_chosen(
    m: MenuModel,
    models: Seq<ModelEntry>,
    profile: Seq<char>,
    i: int,
)
    requires
        m.catalog == Some(models),
    ensures
        m.memory.contains_key(profile) && 0 <= i < models.len() && models[i].chat && models[i].id
            == Some(m.memory[profile]) ==> choice_for(m, profile) == Some(m.memory[profile])
            && selected_for(m, profile).selected == Some(m.memory[profile]),
        (forall|j: int| 0 <= j < models.len() ==> !((#[trigger] models[j]).chat && models[j].id is Some))
            ==> choice_for(m, profile) is None && selected_for(m, profile).selected is None,
        choice_for(MenuModel { catalog: None, ..m }, profile) is None,
{
    if m.memory.contains_key(profile) && 0 <= i < models.len() && models[i].chat && models[i].id
        == Some(m.memory[profile]) {
        assert(is_chat_model(models[i], m.memory[profile]));
    }
    lemma_first_id(models, 0);
    if forall|j: int| 0 <= j < models.len() ==> !((#[trigger] models[j]).chat && models[j].id is Some) {
        assert(!holds_model(models, m.memory[profile]));
        if first_id(models, 0) is Some {
            let id = first_id(models, 0)->0;
            let j = choose|j: int| 0 <= j < models.len() && is_chat_model(#[trigger] models[j], id);
            assert(models[j].chat && models[j].id is Some);
        }
    }
    assert(!holds_model(Seq::empty(), m.memory[profile]));
}

/// A catalog holds exactly the ids that its chat entries have; an id that only
/// an entry without chat has is not selectable.
pub proof fn law_only_chat_models_are_selectable(models: Seq<ModelEntry>, id: Seq<char>)
    ensures
        holds_model(models, id) <==> exists|i: int|
            0 <= i < models.len() && (#[trigger] models[i]).chat && models[i].id == Some(id),
        holds_chat(models) <==> exists|i: int| 0 <= i < models.len() && (#[trigger] models[i]).chat,
{
    if exists|i: int|
        0 <= i < models.len() && (#[trigger] models[i]).chat && models[i].id == Some(id) {
        let i = choose|i: int|
            0 <= i < models.len() && (#[trigger] models[i]).chat && models[i].id == Some(id);
        assert(is_chat_model(models[i], id));
    }
}

/// A snapshot shows the state: the profiles in order, the active profile, the
/// switch in flight, and the selection. Publishing one retains it, queues it
/// behind those before it, and changes nothing else.
pub proof fn law_a_snapshot_shows_the_state(m: MenuModel)
    ensures
        snapshot_of(m).profiles == m.profiles,
        snapshot_of(m).active == m.active,
        snapshot_of(m).switching == m.switching,
        snapshot_of(m).selected_model == m.selected,
        publish(m).latest == Some(snapshot_of(m)),
        publish(m).outbox == m.outbox + seq![snapshot_of(m)],
        snapshot_of(publish(m)) == snapshot_of(m),
        publish(m).profiles == m.profiles,
        publish(m).active == m.active,
        publish(m).switching == m.switching,
        publish(m).selected == m.selected,
        publish(m).reachable == m.reachable,
        publish(m).memory == m.memory,
        publish(m).memory_path == m.memory_path,
        publish(m).catalog == m.catalog,
{
    assert(m.outbox.push(snapshot_of(m)) =~= m.outbox + seq![snapshot_of(m)]);
}

/// Reconciling keeps a selection exactly where the catalog holds it, touches
/// nothing else of the state, and publishes one snapshot exactly where the
/// newest one no longer shows the state.
pub proof fn law_reconciling_drops_only_what_is_gone(m: MenuModel, models: Seq<ModelEntry>)
    requires
        m.catalog == Some(models),
    ensures
        m.selected matches Some(id) ==> reconciled(m).selected == if exists|i: int|
            0 <= i < models.len() && (#[trigger] models[i]).chat && models[i].id == Some(id) {
            Some(id)
        } else {
            None
        },
        m.selected is None ==> reconciled(m).selected is None,
        reconciled(m).profiles == m.profiles,
        reconciled(m).active == m.active,
        reconciled(m).switching == m.switching,
        reconciled(m).reachable == m.reachable,
        reconciled(m).memory == m.memory,
        reconciled(m).memory_path == m.memory_path,
        reconciled(m).catalog == m.catalog,
        reconciled(m).outbox == if m.latest == Some(snapshot_of(reconciled(m))) {
            m.outbox
        } else {
            m.outbox + seq![snapshot_of(reconciled(m))]
        },
{
    if m.selected is Some {
        law_only_chat_models_are_selectable(models, m.selected->0);
    }
    let now = snapshot_of(reconciled(m));
    assert(m.outbox.push(now) =~= m.outbox + seq![now]);
}

/// Restoring touches the selection and the memory of the active profile alone,
/// and publishes one snapshot exactly where it selected a model.
pub proof fn law_restoring_publishes_a_selection(m: MenuModel)
    ensures
        restored(m).profiles == m.profiles,
        restored(m).active == m.active,
        restored(m).switching == m.switching,
        restored(m).reachable == m.reachable,
        restored(m).memory_path == m.memory_path,
        restored(m).catalog == m.catalog,
        m.selected is None && restored(m).selected is Some ==> restored(m).outbox == m.outbox
            + seq![snapshot_of(restored(m))] && restored(m).latest == Some(
            snapshot_of(restored(m)),
        ),
        m.selected is None && restored(m).selected is None ==> restored(m).outbox == m.outbox
            && restored(m).memory == m.memory,
{
    let now = snapshot_of(restored(m));
    assert(m.outbox.push(now) =~= m.outbox + seq![now]);
}

/// What is written, and where: the memory, whole, at the path that was given,
/// and nothing where none was or where no model was chosen.
pub proof fn law_the_memory_is_written_where_it_persists(m: MenuModel, profile: Seq<char>)
    ensures
        m.memory_path is None ==> memory_write(m) is None && write_for(m, profile) is None,
        m.memory_path matches Some(path) ==> memory_write(m) == Some(
            (path, object_of("last_selected"@, m.memory)),
        ),
        write_for(m, profile) is Some <==> m.memory_path is Some && choice_for(m, profile) is Some,
        write_for(m, profile) matches Some(write) ==> write.0 == m.memory_path->0 && write.1
            == object_of(
            "last_selected"@,
            m.memory.insert(profile, choice_for(m, profile)->0),
        ),
{
}

/// A refusal names what was refused.
pub proof fn law_a_refusal_names_its_subject(refusal: MenuRefusal)
    ensures
        refusal matches MenuRefusal::UnknownModel { id } ==> refusal.text() == "unknown model "@
            + debug_text(id@) + ": not in the current catalog"@,
        refusal matches MenuRefusal::SwitchInProgress { name } ==> refusal.text() == "a switch to "@
            + debug_text(name@) + " is already in progress"@,
{
}

/// What is written of the memory reads back as the memory: behind
/// `last_selected` stands each profile that the memory holds, with its model,
/// and no other.
pub proof fn law_the_memory_reads_back(
    write: PendingWrite,
    memory: Map<Seq<char>, Seq<char>>,
    profile: Seq<char>,
)
    requires
        reads_back(Some(write), memory),
    ensures
        ({
            let inner = crate::json::field(
                crate::json::parsed(write.bytes@)->0,
                "last_selected"@,
            );
            let model = crate::json::text_of(crate::json::field(inner->0, profile));
            &&& crate::json::parsed(write.bytes@) is Some
            &&& inner is Some
            &&& memory.contains_key(profile) ==> model == Some(memory[profile])
            &&& !memory.contains_key(profile) ==> model is None
        }),
{
}

} // verus!
