//! The filter manager: the preset catalogue and the device controller behind
//! one set of operations.

use crate::collection::{
    default_collection, lemma_activation_keeps_sound, lemma_create_keeps_sound,
    lemma_default_collection, lemma_delete_keeps_sound, PresetCollection, PresetCollectionView,
};
use crate::error::{texts, FilterError, FilterErrorView};
use crate::string_map::StringMap;
use crate::gamma_ramp::{
    fresh_job, lemma_run_ends, restores, uniform_steps, Capture, DeviceAction, DeviceActionView,
    DeviceEvent, DeviceJob, DeviceJobView, Followup, FollowupView, GammaCurve, GammaRamp,
    GammaRampController,
};
use crate::types::{optional_text, FilterConfig, FilterPreset, PresetView};
use vstd::prelude::*;
use vstd::string::*;

verus! {

/// Holds the preset catalogue and the device controller.
pub struct FilterManager {
    controller: GammaRampController,
    presets: PresetCollection,
}

/// The mathematical value of a `FilterManager`.
pub struct FilterManagerView {
    /// The originals that the controller holds.
    pub originals: Map<Seq<char>, GammaRamp>,
    /// The preset catalogue.
    pub catalogue: PresetCollectionView,
}

impl FilterManagerView {
    /// What `export_presets` hands out: the catalogue.
    pub open spec fn exported(self) -> PresetCollectionView {
        self.catalogue
    }

    /// The manager after `import_presets`: `document` is the catalogue
    /// where it is sound, and else the manager is as it was.
    pub open spec fn imported(self, document: PresetCollectionView) -> FilterManagerView {
        if document.is_sound() {
            FilterManagerView { catalogue: document, ..self }
        } else {
            self
        }
    }
}

/// Importing what was exported changes nothing: the same presets are
/// stored, and the same one is active. A manager's catalogue is always
/// sound.
pub proof fn lemma_import_of_export(manager: FilterManagerView)
    requires
        manager.catalogue.is_sound(),
    ensures
        manager.imported(manager.exported()) == manager,
{
}

/// Whatever is imported, the catalogue afterwards is sound: a sound document
/// is the catalogue, and any other leaves the catalogue as it was.
pub proof fn lemma_import_keeps_sound(manager: FilterManagerView, document: PresetCollectionView)
    requires
        manager.catalogue.is_sound(),
    ensures
        manager.imported(document).catalogue.is_sound(),
        document.is_sound() ==> manager.imported(document).catalogue == document,
        !document.is_sound() ==> manager.imported(document) == manager,
{
}

impl View for FilterManager {
    type V = FilterManagerView;

    closed spec fn view(&self) -> FilterManagerView {
        FilterManagerView { originals: self.controller@, catalogue: self.presets@ }
    }
}

/// The prefix of the ids of presets that users create.
pub open spec fn custom_prefix() -> Seq<char> {
    "custom_"@
}

/// `count` underscores.
pub open spec fn padding(count: nat) -> Seq<char> {
    Seq::new(count, |i: int| '_')
}

/// Whether `id` is the id of a new preset for the drawn text `drawn`:
/// `custom_` and the text, lengthened by as few underscores as it takes for
/// no preset to be stored under it.
pub open spec fn is_unused_custom_id(
    presets: Map<Seq<char>, PresetView>,
    drawn: Seq<char>,
    id: Seq<char>,
) -> bool {
    let base = custom_prefix() + drawn;
    &&& id.len() >= base.len()
    &&& id == base + padding((id.len() - base.len()) as nat)
    &&& !presets.contains_key(id)
    &&& forall|count: nat|
        count < id.len() - base.len() ==> presets.contains_key(#[trigger] (base + padding(count)))
}

/// The length of the longest of `keys`.
pub open spec fn longest(keys: Seq<Seq<char>>) -> nat
    decreases keys.len(),
{
    if keys.len() == 0 {
        0
    } else if keys.last().len() > longest(keys.drop_last()) {
        keys.last().len()
    } else {
        longest(keys.drop_last())
    }
}

proof fn lemma_longest(keys: Seq<Seq<char>>, i: int)
    requires
        0 <= i < keys.len(),
    ensures
        keys[i].len() <= longest(keys),
    decreases keys.len(),
{
    if i < keys.len() - 1 {
        lemma_longest(keys.drop_last(), i);
    }
}

/// A random version-4 UUID in hyphenated lower-case form, from
/// `uuid::Uuid::new_v4` and the UUID's `to_string`. Of the text the contract
/// gives the length alone: the hyphenated form has 36 characters. The UUID
/// is drawn from the operating system's random source, and the call panics
/// where that source fails.
#[verifier::external_body]
fn random_uuid() -> (text: String)
    ensures
        text@.len() == 36,
{
    uuid::Uuid::new_v4().to_string()
}

/// The preset that `update_preset` puts in the place of `preset`: each of
/// name, configuration and hotkey is replaced where a new one is given.
pub open spec fn updated_preset(
    preset: PresetView,
    name: Option<String>,
    config: Option<FilterConfig>,
    hotkey: Option<Option<String>>,
) -> PresetView {
    PresetView {
        name: match name {
            Some(name) => name@,
            None => preset.name,
        },
        config: match config {
            Some(config) => config,
            None => preset.config,
        },
        hotkey: match hotkey {
            Some(hotkey) => optional_text(hotkey),
            None => preset.hotkey,
        },
        ..preset
    }
}

/// The hotkey that an update has to check against the other presets.
pub open spec fn hotkey_to_check(hotkey: Option<Option<String>>) -> Option<Seq<char>> {
    match hotkey {
        Some(Some(key)) => Some(key@),
        _ => None,
    }
}

/// A change that was accepted keeps a catalogue sound, and leaves the preset
/// its id and what it is, built in or not.
pub proof fn lemma_update_keeps_sound(
    catalogue: PresetCollectionView,
    id: Seq<char>,
    name: Option<String>,
    config: Option<FilterConfig>,
    hotkey: Option<Option<String>>,
)
    requires
        catalogue.is_sound(),
        catalogue.accepts_update(id, config, hotkey_to_check(hotkey)),
    ensures
        catalogue.upserted(updated_preset(catalogue.presets[id], name, config, hotkey)).is_sound(),
        updated_preset(catalogue.presets[id], name, config, hotkey).id == id,
        updated_preset(catalogue.presets[id], name, config, hotkey).is_default
            == catalogue.presets[id].is_default,
{
    let changed = updated_preset(catalogue.presets[id], name, config, hotkey);
    let after = catalogue.upserted(changed);
    assert forall|first: Seq<char>, second: Seq<char>, key: Seq<char>|
        after.owns_hotkey(first, key) && after.owns_hotkey(second, key) implies first
        == second by {
        if first != id {
            assert(catalogue.owns_hotkey(first, key));
        }
        if second != id {
            assert(catalogue.owns_hotkey(second, key));
        }
        if first == id && second != id {
            if hotkey is None {
                assert(catalogue.owns_hotkey(id, key));
            } else {
                assert(catalogue.hotkey_taken(key, Some(id)));
            }
        }
        if second == id && first != id {
            if hotkey is None {
                assert(catalogue.owns_hotkey(id, key));
            } else {
                assert(catalogue.hotkey_taken(key, Some(id)));
            }
        }
    }
}

/// How a job ends at the manager, whatever the device accesses gave.
///
/// Once every step of a job is dealt with, the manager reports the job's
/// end and keeps its catalogue sound. Where every write succeeded, a preset
/// that was applied is the active one, if it is still stored, and after a
/// reset none is active. Where a write failed, the catalogue stays as it
/// is, and the job's failure is reported. A preview changes the catalogue
/// in neither case.
pub proof fn lemma_job_settles(
    catalogue: PresetCollectionView,
    job: DeviceJobView,
    cache: Map<Seq<char>, GammaRamp>,
    reads: Seq<Result<GammaRamp, String>>,
    writes: Seq<Result<(), String>>,
)
    requires
        catalogue.is_sound(),
        job.is_fresh(),
    ensures
        ({
            let (end, held) = job.run(cache, reads, writes, job.steps.len());
            let (after, answer) = FilterManager::settled(catalogue, end.next(held));
            let all_written = forall|i: int|
                0 <= i < job.steps.len() ==> (#[trigger] writes[i]) is Ok;
            &&& after.is_sound()
            &&& after.presets == catalogue.presets
            &&& !all_written ==> after == catalogue && answer == (DeviceActionView::Done {
                result: end.result(),
                followup: FollowupView::Nothing,
            }) && !(end.result() is Ok)
            &&& all_written ==> match job.followup {
                FollowupView::Activate { preset_id } => if catalogue.presets.contains_key(
                    preset_id,
                ) {
                    after.active_preset_id == Some(preset_id) && answer
                        == (DeviceActionView::Done {
                        result: Ok(()),
                        followup: FollowupView::Nothing,
                    })
                } else {
                    after == catalogue && answer == (DeviceActionView::Done {
                        result: Err(FilterErrorView::NotFound),
                        followup: FollowupView::Nothing,
                    })
                },
                FollowupView::Deactivate => after.active_preset_id is None && answer
                    == (DeviceActionView::Done {
                    result: Ok(()),
                    followup: FollowupView::Nothing,
                }),
                FollowupView::Nothing => after == catalogue && answer
                    == (DeviceActionView::Done {
                    result: Ok(()),
                    followup: FollowupView::Nothing,
                }),
            }
        }),
{
    lemma_run_ends(job, cache, reads, writes);
    let (end, held) = job.run(cache, reads, writes, job.steps.len());
    match job.followup {
        FollowupView::Activate { preset_id } => {
            lemma_activation_keeps_sound(catalogue, preset_id);
        },
        _ => {
            lemma_activation_keeps_sound(catalogue, Seq::empty());
        },
    }
}

impl FilterManager {
    /// The catalogue is sound.
    #[verifier::type_invariant]
    closed spec fn catalogue_sound(&self) -> bool {
        self.presets@.is_sound()
    }

    /// A manager over the catalogue that was saved, or over the seeded
    /// catalogue where none was. The controller holds no originals.
    ///
    /// Refuses a saved catalogue that is not sound with `InvalidCatalogue`.
    pub fn new(saved: Option<PresetCollection>) -> (result: Result<Self, FilterError>)
        ensures
            match result {
                Ok(manager) => {
                    &&& manager@.originals == Map::<Seq<char>, GammaRamp>::empty()
                    &&& manager@.catalogue == match saved {
                        Some(collection) => collection@,
                        None => default_collection(),
                    }
                    &&& manager@.catalogue.is_sound()
                },
                Err(error) => {
                    &&& error@ == FilterErrorView::InvalidCatalogue
                    &&& saved matches Some(collection) && !collection@.is_sound()
                },
            },
    {
        let presets = match saved {
            Some(collection) => {
                if !collection.is_sound() {
                    return Err(FilterError::InvalidCatalogue);
                }
                collection
            },
            None => {
                proof {
                    lemma_default_collection();
                }
                PresetCollection::default()
            },
        };
        Ok(FilterManager { controller: GammaRampController::new(), presets })
    }

    /// Takes the catalogue out for a change and leaves an empty one in its
    /// place.
    fn take_presets(&mut self) -> (presets: PresetCollection)
        ensures
            presets == old(self).presets,
            presets@.is_sound(),
            final(self).controller == old(self).controller,
    {
        proof {
            use_type_invariant(&*self);
        }
        let mut presets = PresetCollection { presets: StringMap::new(), active_preset_id: None };
        assert(presets@.presets =~= Map::<Seq<char>, PresetView>::empty());
        std::mem::swap(&mut presets, &mut self.presets);
        presets
    }

    /// Takes the controller out for a change and leaves a new one in its
    /// place.
    fn take_controller(&mut self) -> (controller: GammaRampController)
        ensures
            controller == old(self).controller,
            final(self).presets == old(self).presets,
            final(self).presets@.is_sound(),
    {
        proof {
            use_type_invariant(&*self);
        }
        let mut controller = GammaRampController::new();
        std::mem::swap(&mut controller, &mut self.controller);
        controller
    }

    /// The id of a new preset for the drawn text `drawn`: `custom_` and the
    /// text, lengthened by as few underscores as it takes for no preset to
    /// be stored under it.
    pub fn unused_custom_id(&self, drawn: &str) -> (id: String)
        ensures
            is_unused_custom_id(self@.catalogue.presets, drawn@, id@),
    {
        proof {
            use_type_invariant(&self.presets.presets);
            self.presets.presets.lemma_entries();
            reveal_strlit("_");
        }
        let mut id = String::from_str("custom_");
        id.append(drawn);
        let ghost base = custom_prefix() + drawn@;
        let ghost keys = self.presets.presets.keys();
        let ghost mut count: nat = 0;
        assert(id@ =~= base + padding(0));
        while self.presets.presets.contains_key(id.as_str())
            invariant
                keys == self.presets.presets.keys(),
                self.presets.presets@.dom() == keys.to_set(),
                base == custom_prefix() + drawn@,
                id@ == base + padding(count),
                "_"@ == seq!['_'],
                forall|fewer: nat|
                    fewer < count ==> self.presets.presets@.contains_key(
                        #[trigger] (base + padding(fewer)),
                    ),
            decreases longest(keys) + 1 - id@.len(),
        {
            proof {
                assert(keys.to_set().contains(id@));
                lemma_longest(keys, keys.index_of(id@));
                assert(base + padding(count + 1) =~= base + padding(count) + seq!['_']);
            }
            id.append("_");
            proof {
                count = count + 1;
            }
        }
        proof {
            assert(self@.catalogue.presets.dom() =~= self.presets.presets@.dom());
            assert(id@.len() - base.len() == count);
        }
        id
    }

    /// The device controller, for looking at the originals it holds.
    pub fn controller(&self) -> (controller: &GammaRampController)
        ensures
            controller@ == self@.originals,
    {
        &self.controller
    }

    /// The ids of the presets, in the order in which `get_all_presets` lists them.
    pub closed spec fn preset_ids(&self) -> Seq<Seq<char>> {
        self.presets.presets.keys()
    }

    /// All presets, each once.
    pub fn get_all_presets(&self) -> (all: Vec<FilterPreset>)
        ensures
            all@.len() == self.preset_ids().len(),
            self.preset_ids().no_duplicates(),
            self.preset_ids().to_set() == self@.catalogue.presets.dom(),
            forall|i: int|
                0 <= i < all@.len() ==> (#[trigger] all@[i])@
                    == self@.catalogue.presets[self.preset_ids()[i]],
    {
        proof {
            use_type_invariant(&self.presets.presets);
            self.presets.presets.lemma_entries();
            assert(self@.catalogue.presets.dom() =~= self.presets.presets@.dom());
        }
        let mut all: Vec<FilterPreset> = Vec::new();
        let count = self.presets.presets.len();
        let mut i: usize = 0;
        while i < count
            invariant
                i <= count,
                count == self.presets.presets.keys().len(),
                self.presets.presets.wf(),
                all@.len() == i,
                forall|j: int|
                    0 <= j < i ==> (#[trigger] all@[j])
                        == self.presets.presets@[self.presets.presets.keys()[j]],
            decreases count - i,
        {
            let preset = self.presets.presets.value_at(i).clone();
            all.push(preset);
            i = i + 1;
        }
        proof {
            assert forall|i: int| 0 <= i < all@.len() implies (#[trigger] all@[i])@
                == self@.catalogue.presets[self.preset_ids()[i]] by {
                assert(self.presets.presets@.contains_key(self.preset_ids()[i]));
            }
        }
        all
    }

    /// The preset under `preset_id`.
    pub fn get_preset(&self, preset_id: &str) -> (result: Result<FilterPreset, FilterError>)
        ensures
            match result {
                Ok(preset) => self@.catalogue.presets.contains_key(preset_id@) && preset@
                    == self@.catalogue.presets[preset_id@],
                Err(error) => !self@.catalogue.presets.contains_key(preset_id@) && error@
                    == FilterErrorView::NotFound,
            },
    {
        match self.presets.get_preset(preset_id) {
            Some(preset) => Ok(preset.clone()),
            None => Err(FilterError::NotFound),
        }
    }

    /// Stores a new preset of the user's own under `id`, and gives `id` back.
    ///
    /// Refuses with `InvalidConfig` where `config` is not valid; else with
    /// `DuplicateId` where a preset is stored under `id` already; else with
    /// `Conflict` where a preset holds `hotkey` already. The catalogue then
    /// stays as it is.
    pub fn create_preset_with_id(
        &mut self,
        id: String,
        name: String,
        config: FilterConfig,
        hotkey: Option<String>,
    ) -> (result: Result<String, FilterError>)
        ensures
            final(self)@.originals == old(self)@.originals,
            final(self)@.catalogue.is_sound(),
            result is Ok <==> old(self)@.catalogue.accepts_new(config, optional_text(hotkey))
                && !old(self)@.catalogue.presets.contains_key(id@),
            match result {
                Ok(stored) => {
                    &&& stored@ == id@
                    &&& config.is_valid()
                    &&& !old(self)@.catalogue.presets.contains_key(id@)
                    &&& hotkey matches Some(key) ==> !old(self)@.catalogue.hotkey_taken(
                        key@,
                        None,
                    )
                    &&& final(self)@.catalogue == old(self)@.catalogue.upserted(
                        PresetView {
                            id: id@,
                            name: name@,
                            hotkey: optional_text(hotkey),
                            config,
                            is_default: false,
                        },
                    )
                },
                Err(error) => {
                    &&& final(self)@.catalogue == old(self)@.catalogue
                    &&& if !config.is_valid() {
                        Err::<(), FilterError>(error) == config.validation()
                    } else if old(self)@.catalogue.presets.contains_key(id@) {
                        error@ == (FilterErrorView::DuplicateId { preset_id: id@ })
                    } else {
                        match error@ {
                            FilterErrorView::Conflict { hotkey: held, preset_id } => hotkey
                                matches Some(key) && held == key@
                                && old(self)@.catalogue.owns_hotkey(preset_id, key@),
                            _ => false,
                        }
                    }
                },
            },
    {
        proof {
            use_type_invariant(&*self);
        }
        match config.validate() {
            Err(error) => {
                return Err(error);
            },
            Ok(()) => {},
        }
        if self.presets.presets.contains_key(id.as_str()) {
            assert(self@.catalogue.presets.contains_key(id@));
            return Err(FilterError::DuplicateId { preset_id: id });
        }
        assert(!self@.catalogue.presets.contains_key(id@));
        match &hotkey {
            Some(key) => {
                match self.presets.validate_hotkey(key.as_str(), None) {
                    Err(error) => {
                        return Err(error);
                    },
                    Ok(()) => {},
                }
            },
            None => {},
        }
        let stored = id.clone();
        let preset = FilterPreset { id, name, hotkey, config, is_default: false };
        let mut presets = self.take_presets();
        proof {
            lemma_create_keeps_sound(presets@, preset@);
        }
        presets.upsert_preset(preset);
        self.presets = presets;
        Ok(stored)
    }

    /// Stores a new preset of the user's own under an id that no preset is
    /// stored under, and gives the id back. The id is `custom_` followed by
    /// a random UUID, lengthened by underscores should a preset be stored
    /// under that already.
    ///
    /// Refuses with `InvalidConfig` where `config` is not valid, and with
    /// `Conflict` where it is valid and a preset holds `hotkey` already; the
    /// catalogue then stays as it is.
    pub fn create_preset(&mut self, name: String, config: FilterConfig, hotkey: Option<String>) -> (result:
        Result<String, FilterError>)
        ensures
            final(self)@.originals == old(self)@.originals,
            final(self)@.catalogue.is_sound(),
            result is Ok <==> old(self)@.catalogue.accepts_new(config, optional_text(hotkey)),
            match result {
                Ok(id) => {
                    &&& !old(self)@.catalogue.presets.contains_key(id@)
                    &&& id@.len() >= custom_prefix().len() + 36
                    &&& id@.subrange(0, custom_prefix().len() as int) == custom_prefix()
                    &&& is_unused_custom_id(
                        old(self)@.catalogue.presets,
                        id@.subrange(custom_prefix().len() as int, custom_prefix().len() as int + 36),
                        id@,
                    )
                    &&& config.is_valid()
                    &&& hotkey matches Some(key) ==> !old(self)@.catalogue.hotkey_taken(
                        key@,
                        None,
                    )
                    &&& final(self)@.catalogue == old(self)@.catalogue.upserted(
                        PresetView {
                            id: id@,
                            name: name@,
                            hotkey: optional_text(hotkey),
                            config,
                            is_default: false,
                        },
                    )
                },
                Err(error) => {
                    &&& final(self)@.catalogue == old(self)@.catalogue
                    &&& if !config.is_valid() {
                        Err::<(), FilterError>(error) == config.validation()
                    } else {
                        match error@ {
                            FilterErrorView::Conflict { hotkey: held, preset_id } => hotkey
                                matches Some(key) && held == key@
                                && old(self)@.catalogue.owns_hotkey(preset_id, key@),
                            _ => false,
                        }
                    }
                },
            },
    {
        let uuid = random_uuid();
        let id = self.unused_custom_id(uuid.as_str());
        proof {
            let prefix = custom_prefix();
            let base = prefix + uuid@;
            assert(id@.subrange(0, prefix.len() as int) =~= prefix);
            assert(id@.subrange(prefix.len() as int, prefix.len() as int + 36) =~= uuid@);
        }
        self.create_preset_with_id(id, name, config, hotkey)
    }

    /// Changes the preset under `preset_id`: each of name, configuration and
    /// hotkey is replaced where a new one is given.
    ///
    /// Refuses with `NotFound` where no preset is stored under `preset_id`;
    /// else with `InvalidConfig` where a configuration is given and is not
    /// valid; else with `Conflict` where a hotkey is given that another
    /// preset holds. The catalogue then stays as it is.
    pub fn update_preset(
        &mut self,
        preset_id: &str,
        name: Option<String>,
        config: Option<FilterConfig>,
        hotkey: Option<Option<String>>,
    ) -> (result: Result<(), FilterError>)
        ensures
            final(self)@.originals == old(self)@.originals,
            final(self)@.catalogue.is_sound(),
            result is Ok <==> old(self)@.catalogue.accepts_update(
                preset_id@,
                config,
                hotkey_to_check(hotkey),
            ),
            match result {
                Ok(()) => {
                    &&& old(self)@.catalogue.presets.contains_key(preset_id@)
                    &&& config matches Some(given) ==> given.is_valid()
                    &&& hotkey_to_check(hotkey) matches Some(key)
                        ==> !old(self)@.catalogue.hotkey_taken(key, Some(preset_id@))
                    &&& final(self)@.catalogue == old(self)@.catalogue.upserted(
                        updated_preset(
                            old(self)@.catalogue.presets[preset_id@],
                            name,
                            config,
                            hotkey,
                        ),
                    )
                },
                Err(error) => {
                    &&& final(self)@.catalogue == old(self)@.catalogue
                    &&& if !old(self)@.catalogue.presets.contains_key(preset_id@) {
                        error@ == FilterErrorView::NotFound
                    } else if config matches Some(given) && !given.is_valid() {
                        config matches Some(given) && Err::<(), FilterError>(error)
                            == given.validation()
                    } else {
                        match error@ {
                            FilterErrorView::Conflict { hotkey: held, preset_id: owner } => {
                                &&& hotkey_to_check(hotkey) == Some(held)
                                &&& old(self)@.catalogue.owns_hotkey(owner, held)
                                &&& owner != preset_id@
                            },
                            _ => false,
                        }
                    }
                },
            },
    {
        proof {
            use_type_invariant(&*self);
        }
        let mut preset = match self.presets.get_preset(preset_id) {
            Some(preset) => preset.clone(),
            None => {
                return Err(FilterError::NotFound);
            },
        };
        match name {
            Some(new_name) => {
                preset.name = new_name;
            },
            None => {},
        }
        match config {
            Some(new_config) => {
                match new_config.validate() {
                    Err(error) => {
                        return Err(error);
                    },
                    Ok(()) => {},
                }
                preset.config = new_config;
            },
            None => {},
        }
        match hotkey {
            Some(new_hotkey) => {
                match &new_hotkey {
                    Some(key) => {
                        match self.presets.validate_hotkey(key.as_str(), Some(preset_id)) {
                            Err(error) => {
                                return Err(error);
                            },
                            Ok(()) => {},
                        }
                    },
                    None => {},
                }
                preset.hotkey = new_hotkey;
            },
            None => {},
        }
        let mut presets = self.take_presets();
        proof {
            lemma_update_keeps_sound(presets@, preset_id@, name, config, hotkey);
        }
        presets.upsert_preset(preset);
        self.presets = presets;
        Ok(())
    }

    /// Deletes the preset under `preset_id`, unless it is built in. Where
    /// it was the active one, the preset `default` becomes active, or none
    /// where no preset is left under that id.
    pub fn delete_preset(&mut self, preset_id: &str) -> (result: Result<(), FilterError>)
        ensures
            final(self)@.originals == old(self)@.originals,
            final(self)@.catalogue.is_sound(),
            match old(self)@.catalogue.delete_refusal(preset_id@) {
                Some(refusal) => result matches Err(error) && error@ == refusal
                    && final(self)@.catalogue == old(self)@.catalogue,
                None => result is Ok && final(self)@.catalogue == old(self)@.catalogue.deleted(
                    preset_id@,
                ),
            },
    {
        let mut presets = self.take_presets();
        proof {
            lemma_delete_keeps_sound(presets@, preset_id@);
        }
        let result = presets.delete_preset(preset_id);
        self.presets = presets;
        result
    }

    /// Gives the preset under `preset_id` the name `new_name`.
    pub fn rename_preset(&mut self, preset_id: &str, new_name: String) -> (result: Result<
        (),
        FilterError,
    >)
        ensures
            final(self)@.originals == old(self)@.originals,
            final(self)@.catalogue.is_sound(),
            if old(self)@.catalogue.presets.contains_key(preset_id@) {
                result is Ok && final(self)@.catalogue == old(self)@.catalogue.upserted(
                    PresetView { name: new_name@, ..old(self)@.catalogue.presets[preset_id@] },
                )
            } else {
                result matches Err(error) && error@ == FilterErrorView::NotFound
                    && final(self)@.catalogue == old(self)@.catalogue
            },
    {
        self.update_preset(preset_id, Some(new_name), None, None)
    }

    /// Starts applying the preset under `preset_id` to `monitor_devices`.
    /// When the job has succeeded, the preset becomes the active one.
    ///
    /// Refuses with `NotFound` where no preset is stored under `preset_id`,
    /// and else with `NoDevicesSelected` where `monitor_devices` is empty.
    /// The configuration of a stored preset is always valid.
    pub fn apply_preset(
        &self,
        preset_id: &str,
        gamma_curve: &GammaCurve,
        monitor_devices: Vec<String>,
    ) -> (started: Result<DeviceJob, FilterError>)
        ensures
            match started {
                Ok(job) => {
                    &&& self@.catalogue.presets.contains_key(preset_id@)
                    &&& monitor_devices@.len() > 0
                    &&& self@.catalogue.presets[preset_id@].config.is_valid()
                    &&& job@.steps[0].ramp.is_curve_of(
                        self@.catalogue.presets[preset_id@].config,
                        gamma_curve@,
                    )
                    &&& job@ == (DeviceJobView {
                        followup: FollowupView::Activate { preset_id: preset_id@ },
                        ..fresh_job(
                            uniform_steps(texts(monitor_devices@), job@.steps[0].ramp),
                            Capture::WhereMissing,
                            false,
                            false,
                        )
                    })
                },
                Err(error) => if !self@.catalogue.presets.contains_key(preset_id@) {
                    error@ == FilterErrorView::NotFound
                } else {
                    monitor_devices@.len() == 0 && error@ == FilterErrorView::NoDevicesSelected
                },
            },
    {
        proof {
            use_type_invariant(self);
        }
        let config = match self.presets.get_preset(preset_id) {
            Some(preset) => preset.config,
            None => {
                return Err(FilterError::NotFound);
            },
        };
        if monitor_devices.len() == 0 {
            return Err(FilterError::NoDevicesSelected);
        }
        match self.controller.apply_filter(&config, gamma_curve, monitor_devices) {
            Ok(job) => Ok(job.with_followup(Followup::Activate { preset_id: preset_id.to_owned() })),
            Err(error) => Err(error),
        }
    }

    /// Starts applying `config` to `monitor_devices`, for a preview: the
    /// catalogue stays as it is, whatever the job comes to.
    ///
    /// Refuses with `InvalidConfig` where `config` is not valid, and with
    /// `NoDevicesSelected` where it is valid and `monitor_devices` is empty.
    pub fn apply_config(
        &self,
        config: &FilterConfig,
        gamma_curve: &GammaCurve,
        monitor_devices: Vec<String>,
    ) -> (started: Result<DeviceJob, FilterError>)
        ensures
            match started {
                Ok(job) => {
                    &&& config.is_valid()
                    &&& monitor_devices@.len() > 0
                    &&& job@.steps[0].ramp.is_curve_of(*config, gamma_curve@)
                    &&& job@ == fresh_job(
                        uniform_steps(texts(monitor_devices@), job@.steps[0].ramp),
                        Capture::WhereMissing,
                        false,
                        false,
                    )
                },
                Err(error) => if !config.is_valid() {
                    Err::<(), FilterError>(error) == config.validation()
                } else {
                    monitor_devices@.len() == 0 && error == FilterError::NoDevicesSelected
                },
            },
    {
        self.controller.apply_filter(config, gamma_curve, monitor_devices)
    }

    /// The active preset, if an id is set and a preset is stored under it.
    pub fn get_active_preset(&self) -> (found: Option<FilterPreset>)
        ensures
            self@.catalogue.is_sound(),
            found is None <==> self@.catalogue.active_preset_id is None,
            match found {
                Some(preset) => self@.catalogue.active_preset() == Some(preset@),
                None => self@.catalogue.active_preset() is None,
            },
    {
        proof {
            use_type_invariant(self);
        }
        match self.presets.get_active_preset() {
            Some(preset) => Some(preset.clone()),
            None => None,
        }
    }

    /// Starts restoring every device whose original the controller holds.
    /// When the job has succeeded, no preset is active any more.
    pub fn reset_filter(&self) -> (job: DeviceJob)
        ensures
            restores(job@.steps, self@.originals),
            job@ == (DeviceJobView {
                followup: FollowupView::Deactivate,
                ..fresh_job(job@.steps, Capture::Never, true, false)
            }),
    {
        self.controller.reset().with_followup(Followup::Deactivate)
    }

    /// What `advance` does to the catalogue, and what it reports, where the
    /// controller's answer for the job is `answer`.
    pub open spec fn settled(catalogue: PresetCollectionView, answer: DeviceActionView) -> (
        PresetCollectionView,
        DeviceActionView,
    ) {
        match answer {
            DeviceActionView::Done { result: Ok(()), followup: FollowupView::Activate { preset_id } } => {
                if catalogue.presets.contains_key(preset_id) {
                    (
                        PresetCollectionView { active_preset_id: Some(preset_id), ..catalogue },
                        DeviceActionView::Done { result: Ok(()), followup: FollowupView::Nothing },
                    )
                } else {
                    (
                        catalogue,
                        DeviceActionView::Done {
                            result: Err(FilterErrorView::NotFound),
                            followup: FollowupView::Nothing,
                        },
                    )
                }
            },
            DeviceActionView::Done { result: Ok(()), followup: FollowupView::Deactivate } => (
                PresetCollectionView { active_preset_id: None, ..catalogue },
                DeviceActionView::Done { result: Ok(()), followup: FollowupView::Nothing },
            ),
            DeviceActionView::Done { result, followup } => (
                catalogue,
                DeviceActionView::Done { result, followup: FollowupView::Nothing },
            ),
            _ => (catalogue, answer),
        }
    }

    /// Takes in what the last device access gave, and says what is to be
    /// done next for `job`, as the controller's `advance` does.
    ///
    /// Where the job ends with success, what the job was started for
    /// happens to the catalogue: the preset applied becomes active, if it is
    /// still stored, and else the result is `NotFound`; after a reset no
    /// preset is active. Where the job ends otherwise, the catalogue stays
    /// as it is.
    pub fn advance(&mut self, job: DeviceJob, event: DeviceEvent) -> (action: DeviceAction)
        ensures
            final(self)@.catalogue.is_sound(),
            final(self)@.originals == job@.after(old(self)@.originals, event).cache_kept(
                job@.cache_after(old(self)@.originals, event),
            ),
            (final(self)@.catalogue, action@) == Self::settled(
                old(self)@.catalogue,
                job@.after(old(self)@.originals, event).next(
                    job@.cache_after(old(self)@.originals, event),
                ),
            ),
    {
        let mut controller = self.take_controller();
        let answer = controller.advance(job, event);
        self.controller = controller;
        match answer {
            DeviceAction::Done { result: Ok(()), followup: Followup::Activate { preset_id } } => {
                let mut presets = self.take_presets();
                proof {
                    lemma_activation_keeps_sound(presets@, preset_id@);
                }
                let result = presets.set_active_preset(preset_id.as_str());
                self.presets = presets;
                DeviceAction::Done { result, followup: Followup::Nothing }
            },
            DeviceAction::Done { result: Ok(()), followup: Followup::Deactivate } => {
                let mut presets = self.take_presets();
                proof {
                    lemma_activation_keeps_sound(presets@, Seq::empty());
                }
                presets.active_preset_id = None;
                self.presets = presets;
                DeviceAction::Done { result: Ok(()), followup: Followup::Nothing }
            },
            DeviceAction::Done { result, followup } => DeviceAction::Done {
                result,
                followup: Followup::Nothing,
            },
            other => other,
        }
    }

    /// The catalogue as a value of its own, for saving or handing on.
    pub fn export_presets(&self) -> (exported: PresetCollection)
        ensures
            exported@ == self@.exported(),
            exported@.is_sound(),
    {
        proof {
            use_type_invariant(self);
        }
        self.presets.clone()
    }

    /// Puts `imported` in the place of the catalogue.
    ///
    /// Refuses a catalogue that is not sound with `InvalidCatalogue`; the
    /// catalogue then stays as it is.
    pub fn import_presets(&mut self, imported: PresetCollection) -> (result: Result<
        (),
        FilterError,
    >)
        ensures
            final(self)@ == old(self)@.imported(imported@),
            final(self)@.catalogue.is_sound(),
            result is Ok <==> imported@.is_sound(),
            result matches Err(error) ==> error@ == FilterErrorView::InvalidCatalogue,
    {
        proof {
            use_type_invariant(&*self);
        }
        if !imported.is_sound() {
            return Err(FilterError::InvalidCatalogue);
        }
        self.presets = imported;
        Ok(())
    }

    /// Puts the seeded catalogue in the place of the catalogue.
    pub fn reset_to_defaults(&mut self)
        ensures
            final(self)@.catalogue == default_collection(),
            final(self)@.catalogue.is_sound(),
            final(self)@.originals == old(self)@.originals,
    {
        proof {
            lemma_default_collection();
        }
        self.presets = PresetCollection::default();
    }
}

} // verus!
