//! Search settings and named presets of them.
//!
//! Persistence is the caller's concern: these operations change the settings
//! in memory only, and the caller stores them afterwards.

use vstd::prelude::*;
use vstd::string::StringExecFns;
use crate::filter::{MAX_PRICE_TO_SEARCH, MIN_QUANTITY_TO_SEARCH, PRICE_TO_OFFER};
use crate::filter::OrderFilter;
use crate::text::{
    contains_text, decimal, list_lines, listed_lines, parse_u32, parsed_u32, render_decimal,
};

verus! {

/// Items searched by default.
pub const PROFITABLE_ITEM_NAMES: [&'static str; 34] = [
    "Harrow Prime Blueprint",
    "Astilla Prime Stock",
    "Braton Prime Receiver",
    "Knell Prime Receiver",
    "Corvas Prime Blueprint",
    "Magnus Prime Receiver",
    "Burston Prime Barrel",
    "Akbronco Prime Link",
    "Pandero Prime Barrel",
    "Nagantaka Prime Stock",
    "Scourge Prime Handle",
    "Tekko Prime Blueprint",
    "Orthos Prime Blueprint",
    "Stradavar Prime Barrel",
    "Ninkondi Prime Chain",
    "Zakti Prime Barrel",
    "Afuris Prime Link",
    "Nidus Prime Blueprint",
    "Baza Prime Barrel",
    "Harrow Prime Neuroptics Blueprint",
    "Inaros Prime Chassis Blueprint",
    "Gara Prime Neuroptics Blueprint",
    "Karyst Prime Handle",
    "Tatsu Prime Blade",
    "Volnus Prime Head",
    "Redeemer Prime Blueprint",
    "Dethcube Prime Carapace",
    "Titania Prime Neuroptics Blueprint",
    "Guandao Prime Blueprint",
    "Garuda Prime Chassis Blueprint",
    "Panthera Prime Stock",
    "Khora Prime Chassis Blueprint",
    "Atlas Prime Chassis Blueprint",
    "Dual Keres Prime Blueprint",
];

/// Lines joined with newlines between them.
pub open spec fn joined_lines(lines: Seq<Seq<char>>) -> Seq<char>
    decreases lines.len(),
{
    if lines.len() == 0 {
        Seq::empty()
    } else if lines.len() == 1 {
        lines[0]
    } else {
        joined_lines(lines.drop_last()) + "\n"@ + lines.last()
    }
}

/// The default item names, one per line.
pub open spec fn default_item_names() -> Seq<char> {
    joined_lines(PROFITABLE_ITEM_NAMES@.map_values(|s: &str| s@))
}

/// The search settings as the user typed them.
pub ghost struct SettingsView {
    pub max_price_to_search: Seq<char>,
    pub min_quantity_to_search: Seq<char>,
    pub price_to_offer: Seq<char>,
    pub item_names: Seq<char>,
    pub ignored_user_nicknames: Seq<Seq<char>>,
}

/// The settings a new user starts with.
pub open spec fn default_settings() -> SettingsView {
    SettingsView {
        max_price_to_search: decimal(MAX_PRICE_TO_SEARCH as nat),
        min_quantity_to_search: decimal(MIN_QUANTITY_TO_SEARCH as nat),
        price_to_offer: decimal(PRICE_TO_OFFER as nat),
        item_names: default_item_names(),
        ignored_user_nicknames: Seq::empty(),
    }
}

/// The characters of each string.
pub open spec fn texts_view(v: Seq<String>) -> Seq<Seq<char>> {
    v.map_values(|s: String| s@)
}

/// Search settings: numbers are kept as typed, item names one per line.
#[derive(Debug, Clone)]
pub struct Settings {
    max_price_to_search: String,
    min_quantity_to_search: String,
    price_to_offer: String,
    item_names: String,
    ignored_user_nicknames: Vec<String>,
}

impl View for Settings {
    type V = SettingsView;

    closed spec fn view(&self) -> SettingsView {
        SettingsView {
            max_price_to_search: self.max_price_to_search@,
            min_quantity_to_search: self.min_quantity_to_search@,
            price_to_offer: self.price_to_offer@,
            item_names: self.item_names@,
            ignored_user_nicknames: texts_view(self.ignored_user_nicknames@),
        }
    }
}

fn copy_texts(v: &Vec<String>) -> (r: Vec<String>)
    ensures
        r@ == v@,
{
    let mut r: Vec<String> = Vec::new();
    for i in 0..v.len()
        invariant
            r@ == v@.take(i as int),
    {
        r.push(v[i].clone());
        assert(r@ =~= v@.take(i + 1));
    }
    assert(r@ =~= v@);
    r
}

fn join_default_item_names() -> (r: String)
    ensures
        r@ == default_item_names(),
{
    let ghost lines = PROFITABLE_ITEM_NAMES@.map_values(|s: &str| s@);
    let mut r = String::new();
    for i in 0..34
        invariant
            lines == PROFITABLE_ITEM_NAMES@.map_values(|s: &str| s@),
            lines.len() == 34,
            r@ == joined_lines(lines.take(i as int)),
    {
        let ghost before = r@;
        if i > 0 {
            r.append("\n");
        }
        r.append(PROFITABLE_ITEM_NAMES[i]);
        assert(lines.take(i + 1).drop_last() =~= lines.take(i as int));
        assert(r@ =~= joined_lines(lines.take(i + 1)));
    }
    assert(lines.take(34) =~= lines);
    r
}

impl Default for Settings {
    fn default() -> (r: Settings)
        ensures
            r@ == default_settings(),
    {
        let r = Settings {
            max_price_to_search: render_decimal(MAX_PRICE_TO_SEARCH as u64),
            min_quantity_to_search: render_decimal(MIN_QUANTITY_TO_SEARCH as u64),
            price_to_offer: render_decimal(PRICE_TO_OFFER as u64),
            item_names: join_default_item_names(),
            ignored_user_nicknames: Vec::new(),
        };
        assert(r@.ignored_user_nicknames =~= Seq::<Seq<char>>::empty());
        r
    }
}


impl Settings {
    /// An equal copy of the settings.
    fn copy(&self) -> (r: Settings)
        ensures
            r@ == self@,
    {
        Settings {
            max_price_to_search: self.max_price_to_search.clone(),
            min_quantity_to_search: self.min_quantity_to_search.clone(),
            price_to_offer: self.price_to_offer.clone(),
            item_names: self.item_names.clone(),
            ignored_user_nicknames: copy_texts(&self.ignored_user_nicknames),
        }
    }

    pub fn max_price_to_search(&self) -> (r: &str)
        ensures
            r@ == self@.max_price_to_search,
    {
        self.max_price_to_search.as_str()
    }

    pub fn min_quantity_to_search(&self) -> (r: &str)
        ensures
            r@ == self@.min_quantity_to_search,
    {
        self.min_quantity_to_search.as_str()
    }

    pub fn price_to_offer(&self) -> (r: &str)
        ensures
            r@ == self@.price_to_offer,
    {
        self.price_to_offer.as_str()
    }

    pub fn item_names(&self) -> (r: &str)
        ensures
            r@ == self@.item_names,
    {
        self.item_names.as_str()
    }

    pub fn ignored_user_nicknames(&self) -> (r: &Vec<String>)
        ensures
            texts_view(r@) == self@.ignored_user_nicknames,
    {
        &self.ignored_user_nicknames
    }

    pub fn set_max_price_to_search(&mut self, value: String)
        ensures
            final(self)@ == (SettingsView { max_price_to_search: value@, ..old(self)@ }),
    {
        self.max_price_to_search = value;
    }

    pub fn set_min_quantity_to_search(&mut self, value: String)
        ensures
            final(self)@ == (SettingsView { min_quantity_to_search: value@, ..old(self)@ }),
    {
        self.min_quantity_to_search = value;
    }

    pub fn set_price_to_offer(&mut self, value: String)
        ensures
            final(self)@ == (SettingsView { price_to_offer: value@, ..old(self)@ }),
    {
        self.price_to_offer = value;
    }

    pub fn set_item_names(&mut self, value: String)
        ensures
            final(self)@ == (SettingsView { item_names: value@, ..old(self)@ }),
    {
        self.item_names = value;
    }

    pub fn set_ignored_user_nicknames(&mut self, nicknames: Vec<String>)
        ensures
            final(self)@ == (SettingsView {
                ignored_user_nicknames: texts_view(nicknames@),
                ..old(self)@
            }),
    {
        self.ignored_user_nicknames = nicknames;
    }

    /// Adds a nickname to the ignored sellers unless it is there already.
    pub fn add_ignored_user_nickname(&mut self, nickname: String)
        ensures
            final(self)@ == (SettingsView {
                ignored_user_nicknames: if old(self)@.ignored_user_nicknames.contains(nickname@) {
                    old(self)@.ignored_user_nicknames
                } else {
                    old(self)@.ignored_user_nicknames.push(nickname@)
                },
                ..old(self)@
            }),
    {
        let ghost names = self.ignored_user_nicknames@;
        let present = contains_text(&self.ignored_user_nicknames, &nickname);
        proof {
            if present {
                let k = choose|k: int| 0 <= k < names.len() && #[trigger] names[k]@ == nickname@;
                assert(texts_view(names)[k] == nickname@);
            } else {
                assert forall|k: int| 0 <= k < names.len() implies texts_view(names)[k] != nickname@ by {
                    assert(texts_view(names)[k] == names[k]@);
                }
            }
        }
        if !present {
            self.ignored_user_nicknames.push(nickname);
            assert(texts_view(self.ignored_user_nicknames@) =~= texts_view(names).push(
                self.ignored_user_nicknames@.last()@,
            ));
        }
    }

    /// Removes every occurrence of a nickname from the ignored sellers.
    pub fn remove_ignored_user_nickname(&mut self, nickname: &str)
        ensures
            final(self)@ == (SettingsView {
                ignored_user_nicknames: old(self)@.ignored_user_nicknames.filter(
                    |n: Seq<char>| n != nickname@,
                ),
                ..old(self)@
            }),
    {
        let ghost names = texts_view(self.ignored_user_nicknames@);
        let ghost keep = |n: Seq<char>| n != nickname@;
        let target = String::from_str(nickname);
        let mut kept: Vec<String> = Vec::new();
        for i in 0..self.ignored_user_nicknames.len()
            invariant
                names == texts_view(self.ignored_user_nicknames@),
                keep == (|n: Seq<char>| n != nickname@),
                target@ == nickname@,
                texts_view(kept@) == names.take(i as int).filter(keep),
        {
            proof {
                reveal(Seq::filter);
                assert(names.take(i + 1).drop_last() =~= names.take(i as int));
                assert(names.take(i + 1).last() == self.ignored_user_nicknames@[i as int]@);
            }
            if self.ignored_user_nicknames[i] != target {
                let ghost before = kept@;
                kept.push(self.ignored_user_nicknames[i].clone());
                assert(texts_view(kept@) =~= texts_view(before).push(kept@.last()@));
            }
        }
        assert(names.take(names.len() as int) =~= names);
        self.ignored_user_nicknames = kept;
    }
}


/// Settings saved under a name.
#[derive(Debug, Clone)]
pub struct Preset {
    pub name: String,
    pub settings: Settings,
}

/// A preset as its name and its settings.
pub open spec fn preset_view(p: Preset) -> (Seq<char>, SettingsView) {
    (p.name@, p.settings@)
}

/// The presets as names and settings.
pub open spec fn presets_view(v: Seq<Preset>) -> Seq<(Seq<char>, SettingsView)> {
    v.map_values(|p: Preset| preset_view(p))
}

/// The first position at or after `j` of a preset named `name`
/// (`presets.len()` if none).
pub open spec fn preset_index_from(presets: Seq<(Seq<char>, SettingsView)>, name: Seq<char>, j: int) -> int
    decreases presets.len() - j,
{
    if j < 0 || j >= presets.len() {
        presets.len() as int
    } else if presets[j].0 == name {
        j
    } else {
        preset_index_from(presets, name, j + 1)
    }
}

proof fn lemma_preset_index_names(presets: Seq<(Seq<char>, SettingsView)>, name: Seq<char>, j: int)
    requires
        preset_index_from(presets, name, j) < presets.len(),
    ensures
        presets[preset_index_from(presets, name, j)].0 == name,
    decreases presets.len() - j,
{
    if 0 <= j < presets.len() && presets[j].0 != name {
        lemma_preset_index_names(presets, name, j + 1);
    }
}

/// The position of the first preset named `name` (`presets.len()` if none).
pub open spec fn preset_index(presets: Seq<(Seq<char>, SettingsView)>, name: Seq<char>) -> int {
    preset_index_from(presets, name, 0)
}

/// The current settings, the presets, and the name of the preset last saved
/// or loaded.
pub ghost struct ManagerView {
    pub current: SettingsView,
    pub presets: Seq<(Seq<char>, SettingsView)>,
    pub current_preset_name: Option<Seq<char>>,
}

/// The current settings and the saved presets.
#[derive(Debug, Clone)]
pub struct SettingsManager {
    current_settings: Settings,
    pub presets: Vec<Preset>,
    pub current_preset_name: Option<String>,
}

impl View for SettingsManager {
    type V = ManagerView;

    closed spec fn view(&self) -> ManagerView {
        ManagerView {
            current: self.current_settings@,
            presets: presets_view(self.presets@),
            current_preset_name: match self.current_preset_name {
                Some(n) => Some(n@),
                None => None,
            },
        }
    }
}

impl Default for SettingsManager {
    fn default() -> (r: SettingsManager)
        ensures
            r@ == (ManagerView {
                current: default_settings(),
                presets: Seq::empty(),
                current_preset_name: None,
            }),
    {
        let r = SettingsManager {
            current_settings: Settings::default(),
            presets: Vec::new(),
            current_preset_name: None,
        };
        assert(r@.presets =~= Seq::<(Seq<char>, SettingsView)>::empty());
        r
    }
}

/// Finds the first preset named `name`.
fn find_preset(presets: &Vec<Preset>, name: &String) -> (r: usize)
    ensures
        r == preset_index(presets_view(presets@), name@),
{
    let ghost v = presets_view(presets@);
    let mut j: usize = 0;
    while j < presets.len()
        invariant
            v == presets_view(presets@),
            j <= presets.len(),
            preset_index(v, name@) == preset_index_from(v, name@, j as int),
        decreases presets.len() - j,
    {
        assert(v[j as int] == preset_view(presets@[j as int]));
        if presets[j].name == *name {
            return j;
        }
        j = j + 1;
    }
    j
}

/// The presets other than those named `name`.
fn presets_without(presets: &Vec<Preset>, name: &String) -> (r: Vec<Preset>)
    ensures
        presets_view(r@) == presets_view(presets@).filter(
            |p: (Seq<char>, SettingsView)| p.0 != name@,
        ),
{
    let ghost v = presets_view(presets@);
    let ghost keep = |p: (Seq<char>, SettingsView)| p.0 != name@;
    let mut kept: Vec<Preset> = Vec::new();
    for i in 0..presets.len()
        invariant
            v == presets_view(presets@),
            keep == (|p: (Seq<char>, SettingsView)| p.0 != name@),
            presets_view(kept@) == v.take(i as int).filter(keep),
    {
        proof {
            reveal(Seq::filter);
            assert(v.take(i + 1).drop_last() =~= v.take(i as int));
            assert(v.take(i + 1).last() == preset_view(presets@[i as int]));
        }
        if presets[i].name != *name {
            let ghost before = kept@;
            let p = Preset { name: presets[i].name.clone(), settings: presets[i].settings.copy() };
            kept.push(p);
            assert(presets_view(kept@) =~= presets_view(before).push(preset_view(p)));
        }
    }
    assert(v.take(v.len() as int) =~= v);
    kept
}

impl SettingsManager {
    /// Saves the current settings as a preset named `name`, replacing any
    /// preset of that name, and makes it the current preset.
    pub fn save_as_preset(&mut self, name: String)
        ensures
            final(self)@ == (ManagerView {
                presets: old(self)@.presets.filter(
                    |p: (Seq<char>, SettingsView)| p.0 != name@,
                ).push((name@, old(self)@.current)),
                current_preset_name: Some(name@),
                ..old(self)@
            }),
    {
        let preset = Preset { name: name.clone(), settings: self.current_settings.copy() };
        let mut presets = presets_without(&self.presets, &name);
        let ghost before = presets@;
        presets.push(preset);
        assert(presets_view(presets@) =~= presets_view(before).push(preset_view(preset)));
        self.presets = presets;
        self.current_preset_name = Some(name);
    }

    /// Makes the first preset named `name` current; tells whether there was one.
    pub fn load_preset(&mut self, name: &str) -> (r: bool)
        ensures
            r == (preset_index(old(self)@.presets, name@) < old(self)@.presets.len()),
            r ==> final(self)@ == (ManagerView {
                current: old(self)@.presets[preset_index(old(self)@.presets, name@)].1,
                current_preset_name: Some(name@),
                ..old(self)@
            }),
            !r ==> final(self)@ == old(self)@,
    {
        let target = String::from_str(name);
        let i = find_preset(&self.presets, &target);
        if i < self.presets.len() {
            assert(self@.presets[i as int] == preset_view(self.presets@[i as int]));
            self.current_settings = self.presets[i].settings.copy();
            self.current_preset_name = Some(target);
            true
        } else {
            false
        }
    }

    /// Deletes every preset named `name`; if it was the current preset, none
    /// is current any more.
    pub fn delete_preset(&mut self, name: &str)
        ensures
            final(self)@ == (ManagerView {
                presets: old(self)@.presets.filter(
                    |p: (Seq<char>, SettingsView)| p.0 != name@,
                ),
                current_preset_name: if old(self)@.current_preset_name == Some(name@) {
                    None
                } else {
                    old(self)@.current_preset_name
                },
                ..old(self)@
            }),
    {
        let target = String::from_str(name);
        self.presets = presets_without(&self.presets, &target);
        let is_current = match &self.current_preset_name {
            Some(n) => *n == target,
            None => false,
        };
        if is_current {
            self.current_preset_name = None;
        }
    }

    /// Puts the default settings back; presets stay.
    pub fn reset_settings(&mut self)
        ensures
            final(self)@ == (ManagerView { current: default_settings(), ..old(self)@ }),
    {
        self.current_settings = Settings::default();
    }

    /// Deletes every preset; none is current any more.
    pub fn delete_all_presets(&mut self)
        ensures
            final(self)@ == (ManagerView {
                presets: Seq::empty(),
                current_preset_name: None,
                ..old(self)@
            }),
    {
        self.presets.clear();
        self.current_preset_name = None;
        assert(self@.presets =~= Seq::<(Seq<char>, SettingsView)>::empty());
    }

    pub fn get_current_settings(&self) -> (r: &Settings)
        ensures
            r@ == self@.current,
    {
        &self.current_settings
    }

    pub fn get_current_settings_mut(&mut self) -> (r: &mut Settings)
        ensures
            r@ == old(self)@.current,
            final(self)@ == (ManagerView { current: final(r)@, ..old(self)@ }),
    {
        &mut self.current_settings
    }

    pub fn get_presets(&self) -> (r: &[Preset])
        ensures
            presets_view(r@) == self@.presets,
    {
        self.presets.as_slice()
    }

    pub fn get_current_preset_name(&self) -> (r: Option<&str>)
        ensures
            r is Some <==> self@.current_preset_name is Some,
            r is Some ==> r->0@ == self@.current_preset_name->0,
    {
        match &self.current_preset_name {
            Some(n) => Some(n.as_str()),
            None => None,
        }
    }

    /// Stores the current settings into the first preset named as the
    /// current preset; tells whether there was such a preset.
    pub fn update_current_preset(&mut self) -> (r: bool)
        ensures
            r == (old(self)@.current_preset_name is Some && preset_index(
                old(self)@.presets,
                old(self)@.current_preset_name->0,
            ) < old(self)@.presets.len()),
            r ==> final(self)@ == (ManagerView {
                presets: old(self)@.presets.update(
                    preset_index(old(self)@.presets, old(self)@.current_preset_name->0),
                    (old(self)@.current_preset_name->0, old(self)@.current),
                ),
                ..old(self)@
            }),
            !r ==> final(self)@ == old(self)@,
    {
        let i = match &self.current_preset_name {
            Some(n) => find_preset(&self.presets, n),
            None => {
                return false;
            },
        };
        if i < self.presets.len() {
            proof {
                lemma_preset_index_names(self@.presets, self@.current_preset_name->0, 0);
                assert(self@.presets[i as int] == preset_view(self.presets@[i as int]));
            }
            let ghost before = self.presets@;
            let p = Preset { name: self.presets[i].name.clone(), settings: self.current_settings.copy() };
            self.presets.set(i, p);
            assert(presets_view(self.presets@) =~= presets_view(before).update(i as int, preset_view(p)));
            true
        } else {
            false
        }
    }
}


/// A numeric setting that does not read as a number.
#[derive(Debug, Clone, Copy, PartialEq, Eq)]
pub enum ConfigError {
    MaxPriceToSearch,
    MinQuantityToSearch,
    PriceToOffer,
}

impl Settings {
    /// The filter these settings describe: their price ceiling, quantity
    /// floor and ignored sellers, and the given contacted offers.
    pub fn order_filter(&self, excluded_order_ids: Vec<String>) -> (r: Result<OrderFilter, ConfigError>)
        ensures
            parsed_u32(self@.max_price_to_search) is None ==> r == Err::<OrderFilter, ConfigError>(
                ConfigError::MaxPriceToSearch,
            ),
            parsed_u32(self@.max_price_to_search) is Some && parsed_u32(
                self@.min_quantity_to_search,
            ) is None ==> r == Err::<OrderFilter, ConfigError>(ConfigError::MinQuantityToSearch),
            parsed_u32(self@.max_price_to_search) is Some && parsed_u32(
                self@.min_quantity_to_search,
            ) is Some ==> {
                &&& r is Ok
                &&& r->Ok_0.max_price == parsed_u32(self@.max_price_to_search)->0
                &&& r->Ok_0.min_quantity == parsed_u32(self@.min_quantity_to_search)->0
                &&& r->Ok_0.excluded_order_ids@ == excluded_order_ids@
                &&& texts_view(r->Ok_0.excluded_user_names@) == self@.ignored_user_nicknames
            },
    {
        let max_price = match parse_u32(self.max_price_to_search.as_str()) {
            Some(v) => v,
            None => {
                return Err(ConfigError::MaxPriceToSearch);
            },
        };
        let min_quantity = match parse_u32(self.min_quantity_to_search.as_str()) {
            Some(v) => v,
            None => {
                return Err(ConfigError::MinQuantityToSearch);
            },
        };
        Ok(
            OrderFilter {
                max_price,
                min_quantity,
                excluded_order_ids,
                excluded_user_names: copy_texts(&self.ignored_user_nicknames),
            },
        )
    }

    /// The unit price to propose.
    pub fn desired_price(&self) -> (r: Result<u32, ConfigError>)
        ensures
            r == match parsed_u32(self@.price_to_offer) {
                Some(p) => Ok::<u32, ConfigError>(p),
                None => Err(ConfigError::PriceToOffer),
            },
    {
        match parse_u32(self.price_to_offer.as_str()) {
            Some(p) => Ok(p),
            None => Err(ConfigError::PriceToOffer),
        }
    }

    /// The items to search: one per non-empty line, without surrounding white
    /// space.
    pub fn item_name_list(&self) -> (r: Vec<String>)
        ensures
            texts_view(r@) == listed_lines(self@.item_names),
    {
        let r = list_lines(self.item_names.as_str());
        assert(texts_view(r@) =~= r@.map_values(|t: String| t@));
        r
    }
}

} // verus!
