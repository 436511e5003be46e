//! The preset catalogue: the presets by id, and which of them is active.

use crate::error::{FilterError, FilterErrorView};
use crate::string_map::StringMap;
use crate::types::{neutral_config, optional_text, FilterConfig, FilterPreset, PresetView};
use vstd::prelude::*;
use vstd::string::*;

verus! {

/// The presets by id, and the id of the active one.
#[derive(Debug)]
pub struct PresetCollection {
    pub presets: StringMap<FilterPreset>,
    pub active_preset_id: Option<String>,
}

/// The mathematical value of a `PresetCollection`.
pub struct PresetCollectionView {
    pub presets: Map<Seq<char>, PresetView>,
    pub active_preset_id: Option<Seq<char>>,
}

/// The values of the presets of a catalogue.
pub open spec fn preset_views(presets: Map<Seq<char>, FilterPreset>) -> Map<Seq<char>, PresetView> {
    presets.map_values(|preset: FilterPreset| preset@)
}

impl View for PresetCollection {
    type V = PresetCollectionView;

    open spec fn view(&self) -> PresetCollectionView {
        PresetCollectionView {
            presets: preset_views(self.presets@),
            active_preset_id: optional_text(self.active_preset_id),
        }
    }
}

/// The id of the preset that becomes active where the active one is deleted.
pub open spec fn fallback_id() -> Seq<char> {
    "default"@
}

impl PresetCollectionView {
    /// The preset under `id` holds `hotkey`.
    pub open spec fn owns_hotkey(self, id: Seq<char>, hotkey: Seq<char>) -> bool {
        self.presets.contains_key(id) && self.presets[id].hotkey == Some(hotkey)
    }

    /// A preset other than the one under `exclude` holds `hotkey`.
    pub open spec fn hotkey_taken(self, hotkey: Seq<char>, exclude: Option<Seq<char>>) -> bool {
        exists|id: Seq<char>| #[trigger] self.owns_hotkey(id, hotkey) && exclude != Some(id)
    }

    /// Whether a new preset with `config` and `hotkey` is accepted: the
    /// configuration is valid, and no preset holds the hotkey.
    pub open spec fn accepts_new(self, config: FilterConfig, hotkey: Option<Seq<char>>) -> bool {
        &&& config.is_valid()
        &&& hotkey matches Some(key) ==> !self.hotkey_taken(key, None)
    }

    /// Whether the preset under `id` may be given `config` and `hotkey`,
    /// where they are given: the preset is stored, the configuration is
    /// valid, and no other preset holds the hotkey.
    pub open spec fn accepts_update(
        self,
        id: Seq<char>,
        config: Option<FilterConfig>,
        hotkey: Option<Seq<char>>,
    ) -> bool {
        &&& self.presets.contains_key(id)
        &&& config matches Some(given) ==> given.is_valid()
        &&& hotkey matches Some(key) ==> !self.hotkey_taken(key, Some(id))
    }

    /// The catalogue with `preset` stored under its id.
    pub open spec fn upserted(self, preset: PresetView) -> PresetCollectionView {
        PresetCollectionView { presets: self.presets.insert(preset.id, preset), ..self }
    }

    /// Why the preset under `id` cannot be deleted, if it cannot.
    pub open spec fn delete_refusal(self, id: Seq<char>) -> Option<FilterErrorView> {
        if !self.presets.contains_key(id) {
            Some(FilterErrorView::NotFound)
        } else if self.presets[id].is_default {
            Some(FilterErrorView::CannotDeleteDefault)
        } else {
            None
        }
    }

    /// The catalogue without the preset under `id`. Where that preset was
    /// the active one, the preset `default` is, if one is left under that
    /// id, and else none is.
    pub open spec fn deleted(self, id: Seq<char>) -> PresetCollectionView {
        PresetCollectionView {
            presets: self.presets.remove(id),
            active_preset_id: if self.active_preset_id != Some(id) {
                self.active_preset_id
            } else if self.presets.remove(id).contains_key(fallback_id()) {
                Some(fallback_id())
            } else {
                None
            },
        }
    }

    /// The active preset, if an id is set and a preset is stored under it.
    pub open spec fn active_preset(self) -> Option<PresetView> {
        match self.active_preset_id {
            Some(id) => if self.presets.contains_key(id) {
                Some(self.presets[id])
            } else {
                None
            },
            None => None,
        }
    }

    /// Every preset is stored under its own id.
    pub open spec fn keyed_by_id(self) -> bool {
        forall|id: Seq<char>| #[trigger] self.presets.contains_key(id) ==> self.presets[id].id == id
    }

    /// No hotkey is held by two presets.
    pub open spec fn hotkeys_unique(self) -> bool {
        forall|first: Seq<char>, second: Seq<char>, hotkey: Seq<char>|
            #![trigger self.owns_hotkey(first, hotkey), self.owns_hotkey(second, hotkey)]
            self.owns_hotkey(first, hotkey) && self.owns_hotkey(second, hotkey) ==> first
                == second
    }

    /// Every stored configuration is valid.
    pub open spec fn configs_valid(self) -> bool {
        forall|id: Seq<char>| #[trigger]
            self.presets.contains_key(id) ==> self.presets[id].config.is_valid()
    }

    /// The catalogue keeps its rules: every preset is stored under its own
    /// id and has a valid configuration, no hotkey is held by two presets,
    /// and the active id, if set, is the id of a stored preset.
    pub open spec fn is_sound(self) -> bool {
        &&& self.keyed_by_id()
        &&& self.configs_valid()
        &&& self.hotkeys_unique()
        &&& self.active_is_known()
    }

    /// The active id, if set, is the id of a stored preset.
    pub open spec fn active_is_known(self) -> bool {
        match self.active_preset_id {
            Some(id) => self.presets.contains_key(id),
            None => true,
        }
    }
}

/// A built-in preset.
pub open spec fn builtin_preset(
    id: Seq<char>,
    name: Seq<char>,
    hotkey: Seq<char>,
    config: FilterConfig,
) -> PresetView {
    PresetView { id, name, hotkey: Some(hotkey), config, is_default: true }
}

/// The configuration of the built-in preset for daylight.
pub open spec fn daytime_config() -> FilterConfig {
    FilterConfig { brightness: 50_000, gamma: 1_200_000, contrast: 50_000, ..neutral_config() }
}

/// The configuration of the built-in preset for the night.
pub open spec fn nighttime_config() -> FilterConfig {
    FilterConfig { brightness: 300_000, gamma: 700_000, contrast: 150_000, ..neutral_config() }
}

/// The catalogue as it is first seeded: the three built-in presets
/// `default`, `daytime` and `nighttime` on the hotkeys F2, F3 and F4, with
/// `default` active.
pub open spec fn default_collection() -> PresetCollectionView {
    PresetCollectionView {
        presets: Map::<Seq<char>, PresetView>::empty().insert(
            "default"@,
            builtin_preset("default"@, "默认"@, "F2"@, neutral_config()),
        ).insert(
            "daytime"@,
            builtin_preset("daytime"@, "白天"@, "F3"@, daytime_config()),
        ).insert(
            "nighttime"@,
            builtin_preset("nighttime"@, "夜间"@, "F4"@, nighttime_config()),
        ),
        active_preset_id: Some("default"@),
    }
}

/// A hotkey that another preset holds is refused, for a new preset and for
/// a change to a preset alike.
pub proof fn lemma_hotkey_of_other_refused(
    catalogue: PresetCollectionView,
    owner: Seq<char>,
    hotkey: Seq<char>,
    id: Seq<char>,
    new_config: FilterConfig,
    config: Option<FilterConfig>,
)
    requires
        catalogue.owns_hotkey(owner, hotkey),
        owner != id,
    ensures
        !catalogue.accepts_new(new_config, Some(hotkey)),
        !catalogue.accepts_update(id, config, Some(hotkey)),
{
    assert(catalogue.hotkey_taken(hotkey, None));
    assert(catalogue.hotkey_taken(hotkey, Some(id)));
}

/// A preset may keep its hotkey: a change to a stored preset that gives it
/// a hotkey which no other preset holds is accepted, whether or not the
/// preset holds that hotkey already.
pub proof fn lemma_own_hotkey_accepted(
    catalogue: PresetCollectionView,
    id: Seq<char>,
    hotkey: Seq<char>,
)
    requires
        catalogue.presets.contains_key(id),
        forall|other: Seq<char>| #[trigger]
            catalogue.owns_hotkey(other, hotkey) ==> other == id,
    ensures
        catalogue.accepts_update(id, None, Some(hotkey)),
{
}

/// Storing a preset that was accepted as new leaves no hotkey with two
/// presets, where none had two before.
pub proof fn lemma_create_keeps_hotkeys_unique(catalogue: PresetCollectionView, preset: PresetView)
    requires
        catalogue.hotkeys_unique(),
        catalogue.accepts_new(preset.config, preset.hotkey),
    ensures
        catalogue.upserted(preset).hotkeys_unique(),
{
    let after = catalogue.upserted(preset);
    assert forall|first: Seq<char>, second: Seq<char>, hotkey: Seq<char>|
        after.owns_hotkey(first, hotkey) && after.owns_hotkey(second, hotkey) implies first
        == second by {
        if first != preset.id {
            assert(catalogue.owns_hotkey(first, hotkey));
        }
        if second != preset.id {
            assert(catalogue.owns_hotkey(second, hotkey));
        }
    }
}

/// A deletion leaves no hotkey with two presets, where none had two before.
pub proof fn lemma_delete_keeps_hotkeys_unique(catalogue: PresetCollectionView, id: Seq<char>)
    requires
        catalogue.hotkeys_unique(),
    ensures
        catalogue.deleted(id).hotkeys_unique(),
{
    let after = catalogue.deleted(id);
    assert forall|first: Seq<char>, second: Seq<char>, hotkey: Seq<char>|
        after.owns_hotkey(first, hotkey) && after.owns_hotkey(second, hotkey) implies first
        == second by {
        assert(catalogue.owns_hotkey(first, hotkey));
        assert(catalogue.owns_hotkey(second, hotkey));
    }
}

/// Storing a preset and deleting one leave every preset under its own id.
pub proof fn lemma_keyed_by_id_kept(
    catalogue: PresetCollectionView,
    preset: PresetView,
    id: Seq<char>,
)
    requires
        catalogue.keyed_by_id(),
    ensures
        catalogue.upserted(preset).keyed_by_id(),
        catalogue.deleted(id).keyed_by_id(),
{
}

/// Storing a preset leaves the active id that of a stored preset.
pub proof fn lemma_upsert_keeps_active_known(catalogue: PresetCollectionView, preset: PresetView)
    requires
        catalogue.active_is_known(),
    ensures
        catalogue.upserted(preset).active_is_known(),
{
}

/// A built-in preset stays as it is where a preset is stored under another
/// id or a preset is deleted.
pub proof fn lemma_builtin_stays(
    catalogue: PresetCollectionView,
    builtin: Seq<char>,
    preset: PresetView,
    id: Seq<char>,
)
    requires
        catalogue.presets.contains_key(builtin),
        catalogue.presets[builtin].is_default,
    ensures
        preset.id != builtin ==> catalogue.upserted(preset).presets.contains_key(builtin)
            && catalogue.upserted(preset).presets[builtin] == catalogue.presets[builtin],
        catalogue.delete_refusal(id) is None ==> catalogue.deleted(id).presets.contains_key(
            builtin,
        ) && catalogue.deleted(id).presets[builtin] == catalogue.presets[builtin],
{
}

/// A built-in preset is never deleted: the attempt is refused with
/// `CannotDeleteDefault`.
pub proof fn lemma_builtin_not_deleted(catalogue: PresetCollectionView, id: Seq<char>)
    requires
        catalogue.presets.contains_key(id),
        catalogue.presets[id].is_default,
    ensures
        catalogue.delete_refusal(id) == Some(FilterErrorView::CannotDeleteDefault),
{
}

/// A deletion leaves the active id that of a stored preset. Where the
/// built-in preset `default` is stored, which no deletion takes away, it is
/// the one that becomes active in the place of a deleted active preset.
pub proof fn lemma_delete_keeps_active_known(catalogue: PresetCollectionView, id: Seq<char>)
    requires
        catalogue.active_is_known(),
    ensures
        catalogue.deleted(id).active_is_known(),
        catalogue.presets.contains_key(fallback_id()) && catalogue.presets[fallback_id()].is_default
            && catalogue.delete_refusal(id) is None ==> {
            &&& catalogue.deleted(id).presets.contains_key(fallback_id())
            &&& catalogue.active_preset_id == Some(id) ==> catalogue.deleted(id).active_preset_id
                == Some(fallback_id())
        },
{
}

/// Storing a preset that was accepted as new keeps a catalogue sound.
pub proof fn lemma_create_keeps_sound(catalogue: PresetCollectionView, preset: PresetView)
    requires
        catalogue.is_sound(),
        catalogue.accepts_new(preset.config, preset.hotkey),
    ensures
        catalogue.upserted(preset).is_sound(),
{
    lemma_create_keeps_hotkeys_unique(catalogue, preset);
}

/// A deletion keeps a catalogue sound.
pub proof fn lemma_delete_keeps_sound(catalogue: PresetCollectionView, id: Seq<char>)
    requires
        catalogue.is_sound(),
    ensures
        catalogue.deleted(id).is_sound(),
{
    lemma_delete_keeps_hotkeys_unique(catalogue, id);
}

/// Making a stored preset the active one, or none, keeps a catalogue sound.
pub proof fn lemma_activation_keeps_sound(catalogue: PresetCollectionView, id: Seq<char>)
    requires
        catalogue.is_sound(),
    ensures
        (PresetCollectionView { active_preset_id: None, ..catalogue }).is_sound(),
        catalogue.presets.contains_key(id) ==> (PresetCollectionView {
            active_preset_id: Some(id),
            ..catalogue
        }).is_sound(),
{
    let none = PresetCollectionView { active_preset_id: None, ..catalogue };
    let some = PresetCollectionView { active_preset_id: Some(id), ..catalogue };
    assert forall|first: Seq<char>, second: Seq<char>, hotkey: Seq<char>|
        none.owns_hotkey(first, hotkey) && none.owns_hotkey(second, hotkey) implies first
        == second by {
        assert(catalogue.owns_hotkey(first, hotkey) && catalogue.owns_hotkey(second, hotkey));
    }
    assert forall|first: Seq<char>, second: Seq<char>, hotkey: Seq<char>|
        some.owns_hotkey(first, hotkey) && some.owns_hotkey(second, hotkey) implies first
        == second by {
        assert(catalogue.owns_hotkey(first, hotkey) && catalogue.owns_hotkey(second, hotkey));
    }
}

/// The seeded catalogue holds exactly the three built-in presets `default`,
/// `daytime` and `nighttime`, on the hotkeys F2, F3 and F4, each with a
/// valid configuration, and `default` is active.
pub proof fn lemma_default_collection()
    ensures
        default_collection().presets.dom() == set!["default"@, "daytime"@, "nighttime"@],
        default_collection().presets.dom().len() == 3,
        default_collection().presets["default"@] == builtin_preset(
            "default"@,
            "默认"@,
            "F2"@,
            neutral_config(),
        ),
        default_collection().presets["daytime"@] == builtin_preset(
            "daytime"@,
            "白天"@,
            "F3"@,
            daytime_config(),
        ),
        default_collection().presets["nighttime"@] == builtin_preset(
            "nighttime"@,
            "夜间"@,
            "F4"@,
            nighttime_config(),
        ),
        neutral_config().is_valid(),
        daytime_config().is_valid(),
        nighttime_config().is_valid(),
        default_collection().active_preset() == Some(default_collection().presets["default"@]),
        forall|id: Seq<char>| #[trigger]
            default_collection().presets.contains_key(id)
                ==> default_collection().presets[id].is_default
                && default_collection().presets[id].id == id,
        default_collection().keyed_by_id(),
        default_collection().hotkeys_unique(),
        default_collection().active_is_known(),
        default_collection().is_sound(),
{
    reveal_strlit("F2");
    reveal_strlit("F3");
    reveal_strlit("F4");
    assert("F2"@[1] != "F3"@[1] && "F2"@[1] != "F4"@[1] && "F3"@[1] != "F4"@[1]);
    reveal_strlit("default");
    reveal_strlit("daytime");
    reveal_strlit("nighttime");
    assert("default"@ != "daytime"@) by {
        assert("default"@[1] != "daytime"@[1]);
    }
    assert("default"@ != "nighttime"@) by {
        assert("default"@.len() != "nighttime"@.len());
    }
    assert("daytime"@ != "nighttime"@) by {
        assert("daytime"@.len() != "nighttime"@.len());
    }
    let ids = set!["default"@, "daytime"@, "nighttime"@];
    assert(default_collection().presets.dom() =~= ids);
    assert(ids =~= Set::<Seq<char>>::empty().insert("default"@).insert("daytime"@).insert(
        "nighttime"@,
    ));
    let seeded = default_collection();
    assert forall|first: Seq<char>, second: Seq<char>, hotkey: Seq<char>|
        seeded.owns_hotkey(first, hotkey) && seeded.owns_hotkey(second, hotkey) implies first
        == second by {
        assert(ids.contains(first) && ids.contains(second));
    }
}

proof fn lemma_views_insert(presets: Map<Seq<char>, FilterPreset>, id: Seq<char>, preset: FilterPreset)
    ensures
        preset_views(presets.insert(id, preset)) == preset_views(presets).insert(id, preset@),
{
    assert(preset_views(presets.insert(id, preset)) =~= preset_views(presets).insert(id, preset@));
}

proof fn lemma_views_remove(presets: Map<Seq<char>, FilterPreset>, id: Seq<char>)
    ensures
        preset_views(presets.remove(id)) == preset_views(presets).remove(id),
{
    assert(preset_views(presets.remove(id)) =~= preset_views(presets).remove(id));
}

impl Default for PresetCollection {
    /// The catalogue as it is first seeded.
    fn default() -> (collection: Self)
        ensures
            collection@ == default_collection(),
    {
        let mut presets: StringMap<FilterPreset> = StringMap::new();
        let ghost empty = presets@;
        assert(preset_views(empty) =~= Map::<Seq<char>, PresetView>::empty());
        let neutral = FilterConfig::default();
        let first = FilterPreset::new_default(
            String::from_str("default"),
            String::from_str("默认"),
            Some(String::from_str("F2")),
            neutral,
        );
        proof {
            lemma_views_insert(presets@, "default"@, first);
        }
        presets.insert(String::from_str("default"), first);
        let second = FilterPreset::new_default(
            String::from_str("daytime"),
            String::from_str("白天"),
            Some(String::from_str("F3")),
            FilterConfig { brightness: 50_000, gamma: 1_200_000, contrast: 50_000, ..neutral },
        );
        proof {
            lemma_views_insert(presets@, "daytime"@, second);
        }
        presets.insert(String::from_str("daytime"), second);
        let third = FilterPreset::new_default(
            String::from_str("nighttime"),
            String::from_str("夜间"),
            Some(String::from_str("F4")),
            FilterConfig { brightness: 300_000, gamma: 700_000, contrast: 150_000, ..neutral },
        );
        proof {
            lemma_views_insert(presets@, "nighttime"@, third);
        }
        presets.insert(String::from_str("nighttime"), third);
        PresetCollection { presets, active_preset_id: Some(String::from_str("default")) }
    }
}

impl Clone for PresetCollection {
    fn clone(&self) -> (copy: Self)
        ensures
            copy@ == self@,
            copy.presets.keys() == self.presets.keys(),
    {
        proof {
            use_type_invariant(&self.presets);
            self.presets.lemma_entries();
        }
        let mut presets: StringMap<FilterPreset> = StringMap::new();
        let count = self.presets.len();
        let ghost keys = self.presets.keys();
        let mut i: usize = 0;
        while i < count
            invariant
                i <= count,
                count == keys.len(),
                keys == self.presets.keys(),
                keys.no_duplicates(),
                self.presets.wf(),
                presets.keys() == keys.take(i as int),
                forall|k: Seq<char>|
                    presets@.contains_key(k) <==> keys.take(i as int).contains(k),
                forall|k: Seq<char>| #[trigger]
                    presets@.contains_key(k) ==> presets@[k] == self.presets@[k],
            decreases count - i,
        {
            let key = self.presets.key_at(i).clone();
            let preset = self.presets.value_at(i).clone();
            proof {
                assert(!keys.take(i as int).contains(keys[i as int])) by {
                    if keys.take(i as int).contains(keys[i as int]) {
                        let j = keys.take(i as int).index_of(keys[i as int]);
                        assert(keys[j] == keys[i as int]);
                    }
                }
                assert(keys.take(i + 1) =~= keys.take(i as int).push(keys[i as int]));
            }
            let ghost earlier = presets@;
            presets.insert(key, preset);
            proof {
                assert forall|k: Seq<char>|
                    presets@.contains_key(k) <==> keys.take(i + 1).contains(k) by {
                    if keys.take(i as int).contains(k) {
                        let j = keys.take(i as int).index_of(k);
                        assert(keys.take(i + 1)[j] == k);
                    }
                    if keys.take(i + 1).contains(k) && k != keys[i as int] {
                        let j = keys.take(i + 1).index_of(k);
                        assert(keys.take(i as int)[j] == k);
                    }
                    if k == keys[i as int] {
                        assert(keys.take(i + 1)[i as int] == k);
                    }
                }
            }
            i = i + 1;
        }
        let copy = PresetCollection {
            presets,
            active_preset_id: match &self.active_preset_id {
                Some(id) => Some(id.clone()),
                None => None,
            },
        };
        proof {
            assert(keys.take(count as int) =~= keys);
            assert(copy.presets@ =~= self.presets@);
        }
        copy
    }
}

impl PresetCollection {
    /// Stores `preset` under its id, in place of what was stored there.
    pub fn upsert_preset(&mut self, preset: FilterPreset)
        ensures
            final(self)@ == old(self)@.upserted(preset@),
    {
        proof {
            lemma_views_insert(self.presets@, preset.id@, preset);
        }
        let id = preset.id.clone();
        self.presets.insert(id, preset);
    }

    /// Deletes the preset under `preset_id`, unless it is built in. Where
    /// it was the active one, the preset `default` becomes active, or none
    /// where no preset is left under that id.
    pub fn delete_preset(&mut self, preset_id: &str) -> (result: Result<(), FilterError>)
        ensures
            match old(self)@.delete_refusal(preset_id@) {
                Some(refusal) => result matches Err(error) && error@ == refusal && final(self)@
                    == old(self)@,
                None => result is Ok && final(self)@ == old(self)@.deleted(preset_id@),
            },
    {
        match self.presets.get(preset_id) {
            Some(preset) => {
                if preset.is_default {
                    return Err(FilterError::CannotDeleteDefault);
                }
            },
            None => {
                return Err(FilterError::NotFound);
            },
        }
        proof {
            lemma_views_remove(self.presets@, preset_id@);
        }
        self.presets.remove(preset_id);
        let was_active = match &self.active_preset_id {
            Some(active) => *active == preset_id.to_owned(),
            None => false,
        };
        if was_active {
            if self.presets.contains_key("default") {
                self.active_preset_id = Some(String::from_str("default"));
            } else {
                self.active_preset_id = None;
            }
        }
        Ok(())
    }

    /// The preset under `preset_id`.
    pub fn get_preset(&self, preset_id: &str) -> (found: Option<&FilterPreset>)
        ensures
            match found {
                Some(preset) => self@.presets.contains_key(preset_id@) && preset@
                    == self@.presets[preset_id@],
                None => !self@.presets.contains_key(preset_id@),
            },
    {
        self.presets.get(preset_id)
    }

    /// The active preset, if an id is set and a preset is stored under it.
    pub fn get_active_preset(&self) -> (found: Option<&FilterPreset>)
        ensures
            match found {
                Some(preset) => self@.active_preset() == Some(preset@),
                None => self@.active_preset() is None,
            },
    {
        match &self.active_preset_id {
            Some(id) => self.presets.get(id.as_str()),
            None => None,
        }
    }

    /// Whether the catalogue keeps its rules: every preset is stored under
    /// its own id and has a valid configuration, no hotkey is held by two
    /// presets, and the active id, if set, is the id of a stored preset.
    pub fn is_sound(&self) -> (sound: bool)
        ensures
            sound == self@.is_sound(),
    {
        proof {
            use_type_invariant(&self.presets);
            self.presets.lemma_entries();
        }
        let known = match &self.active_preset_id {
            Some(id) => self.presets.contains_key(id.as_str()),
            None => true,
        };
        if !known {
            return false;
        }
        let ghost keys = self.presets.keys();
        let count = self.presets.len();
        let mut i: usize = 0;
        while i < count
            invariant
                i <= count,
                count == keys.len(),
                keys == self.presets.keys(),
                self.presets.wf(),
                self@.active_is_known(),
                forall|j: int|
                    0 <= j < i ==> {
                        &&& self@.presets[#[trigger] keys[j]].id == keys[j]
                        &&& self@.presets[keys[j]].config.is_valid()
                        &&& self@.presets[keys[j]].hotkey matches Some(hotkey)
                            ==> !self@.hotkey_taken(hotkey, Some(keys[j]))
                    },
            decreases count - i,
        {
            let id = self.presets.key_at(i);
            let preset = self.presets.value_at(i);
            assert(self@.presets.contains_key(id@) && self@.presets[id@] == preset@);
            if !(preset.id == *id) {
                assert(!self@.keyed_by_id());
                return false;
            }
            if preset.config.validate().is_err() {
                assert(!self@.configs_valid());
                return false;
            }
            match &preset.hotkey {
                Some(hotkey) => {
                    if self.validate_hotkey(hotkey.as_str(), Some(id.as_str())).is_err() {
                        proof {
                            let other = choose|other: Seq<char>| #[trigger]
                                self@.owns_hotkey(other, hotkey@) && Some(id@) != Some(other);
                            assert(self@.owns_hotkey(id@, hotkey@));
                            assert(!self@.hotkeys_unique());
                        }
                        return false;
                    }
                },
                None => {},
            }
            i = i + 1;
        }
        proof {
            let view = self@;
            assert forall|id: Seq<char>| #[trigger] view.presets.contains_key(id) implies {
                &&& view.presets[id].id == id
                &&& view.presets[id].config.is_valid()
                &&& view.presets[id].hotkey matches Some(hotkey) ==> !view.hotkey_taken(
                    hotkey,
                    Some(id),
                )
            } by {
                assert(keys.to_set().contains(id));
                let j = keys.index_of(id);
                assert(keys[j] == id);
            }
            assert forall|first: Seq<char>, second: Seq<char>, hotkey: Seq<char>|
                view.owns_hotkey(first, hotkey) && view.owns_hotkey(second, hotkey) implies first
                == second by {
                if first != second {
                    assert(view.hotkey_taken(hotkey, Some(first)));
                }
            }
        }
        true
    }

    /// Makes the preset under `preset_id` the active one.
    pub fn set_active_preset(&mut self, preset_id: &str) -> (result: Result<(), FilterError>)
        ensures
            if old(self)@.presets.contains_key(preset_id@) {
                result is Ok && final(self)@ == (PresetCollectionView {
                    active_preset_id: Some(preset_id@),
                    ..old(self)@
                })
            } else {
                result matches Err(error) && error@ == FilterErrorView::NotFound && final(self)@
                    == old(self)@
            },
    {
        if !self.presets.contains_key(preset_id) {
            return Err(FilterError::NotFound);
        }
        self.active_preset_id = Some(preset_id.to_owned());
        Ok(())
    }

    /// Accepts `hotkey` if no preset holds it, the preset under
    /// `exclude_preset_id` aside; otherwise names a preset that does.
    pub fn validate_hotkey(&self, hotkey: &str, exclude_preset_id: Option<&str>) -> (result: Result<
        (),
        FilterError,
    >)
        ensures
            result is Ok <==> !self@.hotkey_taken(hotkey@, excluded(exclude_preset_id)),
            match result {
                Ok(()) => true,
                Err(error) => match error@ {
                    FilterErrorView::Conflict { hotkey: held, preset_id } => held == hotkey@
                        && self@.owns_hotkey(preset_id, hotkey@) && excluded(exclude_preset_id)
                        != Some(preset_id),
                    _ => false,
                },
            },
    {
        proof {
            use_type_invariant(&self.presets);
            self.presets.lemma_entries();
        }
        let wanted: String = hotkey.to_owned();
        let skip: Option<String> = match exclude_preset_id {
            Some(id) => Some(id.to_owned()),
            None => None,
        };
        let ghost exclude = excluded(exclude_preset_id);
        let ghost keys = self.presets.keys();
        let count = self.presets.len();
        let mut i: usize = 0;
        while i < count
            invariant
                i <= count,
                count == keys.len(),
                keys == self.presets.keys(),
                self.presets.wf(),
                wanted@ == hotkey@,
                exclude == excluded(exclude_preset_id),
                optional_text(skip) == exclude,
                forall|j: int|
                    0 <= j < i ==> !(#[trigger] self@.owns_hotkey(keys[j], hotkey@) && exclude
                        != Some(keys[j])),
            decreases count - i,
        {
            let id = self.presets.key_at(i);
            let preset = self.presets.value_at(i);
            let skipped = match &skip {
                Some(excluded_id) => *id == *excluded_id,
                None => false,
            };
            if !skipped {
                let held = match &preset.hotkey {
                    Some(existing) => *existing == wanted,
                    None => false,
                };
                if held {
                    assert(self@.owns_hotkey(id@, hotkey@));
                    assert(exclude != Some(id@));
                    assert(self@.hotkey_taken(hotkey@, exclude));
                    let error = FilterError::Conflict { hotkey: wanted, preset_id: id.clone() };
                    assert(error@ == FilterErrorView::Conflict {
                        hotkey: hotkey@,
                        preset_id: id@,
                    });
                    return Err(error);
                }
            }
            i = i + 1;
        }
        proof {
            assert forall|id: Seq<char>| #[trigger] self@.owns_hotkey(id, hotkey@) implies exclude
                == Some(id) by {
                assert(keys.to_set().contains(id));
                let j = keys.index_of(id);
                assert(keys[j] == id);
            }
        }
        Ok(())
    }
}

/// The id that a hotkey check leaves aside.
pub open spec fn excluded(exclude_preset_id: Option<&str>) -> Option<Seq<char>> {
    match exclude_preset_id {
        Some(id) => Some(id@),
        None => None,
    }
}

} // verus!
