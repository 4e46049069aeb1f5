//! Onboard profile listings: where profile names come from (keyboard
//! metadata, then Wootility's browser cache, then the names cached in the
//! configuration, then generic labels) and which profile is active or
//! assigned to this system.
use std::collections::BTreeMap;
use vstd::prelude::*;

use crate::config::{
    cache_profile_names, configured_profile_spec, name_error, pairs_to_map, validate_profile_name,
    Config, ConfigError, HostOs, NameError,
};
use crate::protocol::PROFILE_COUNT;
use crate::text::{decimal_text, push_char, push_decimal};

verus! {

/// One onboard profile as the front ends show it.
#[derive(Clone, Debug, PartialEq, Eq)]
pub struct ProfileInfo {
    /// Human-facing profile number.
    pub index: u8,
    pub name: String,
    /// The keyboard currently runs this profile.
    pub active: bool,
    /// This profile is the one learned for the running system.
    pub assigned: bool,
}

/// `info` describes `profiles`, marking the active and assigned numbers.
pub open spec fn describes(
    info: Seq<ProfileInfo>,
    profiles: Seq<(u8, String)>,
    current: Option<u8>,
    assigned: Option<u8>,
) -> bool {
    &&& info.len() == profiles.len()
    &&& forall|i: int|
        0 <= i < info.len() ==> {
            &&& (#[trigger] info[i]).index == profiles[i].0
            &&& info[i].name == profiles[i].1
            &&& info[i].active == (current == Some(profiles[i].0))
            &&& info[i].assigned == (assigned == Some(profiles[i].0))
        }
}

/// Describes each listed profile, marking the one the keyboard runs
/// (`current`) and the one learned for this system (`assigned`), both as
/// human-facing numbers.
pub fn profile_info(profiles: Vec<(u8, String)>, current: Option<u8>, assigned: Option<u8>) -> (info: Vec<ProfileInfo>)
    ensures
        describes(info@, profiles@, current, assigned),
{
    let mut info: Vec<ProfileInfo> = Vec::new();
    let mut i: usize = 0;
    while i < profiles.len()
        invariant
            i <= profiles@.len(),
            describes(info@, profiles@.subrange(0, i as int), current, assigned),
        decreases profiles@.len() - i,
    {
        let index = profiles[i].0;
        let name = profiles[i].1.clone();
        let active = match current {
            Some(c) => c == index,
            None => false,
        };
        let is_assigned = match assigned {
            Some(a) => a == index,
            None => false,
        };
        info.push(ProfileInfo { index, name, active, assigned: is_assigned });
        i += 1;
    }
    assert(profiles@.subrange(0, profiles@.len() as int) == profiles@);
    info
}

/// Sets the `assigned` mark of each profile to whether it is `assigned`.
pub fn mark_assigned(profiles: Vec<ProfileInfo>, assigned: Option<u8>) -> (marked: Vec<ProfileInfo>)
    ensures
        marked@.len() == profiles@.len(),
        forall|i: int|
            0 <= i < marked@.len() ==> #[trigger] marked@[i] == (ProfileInfo {
                assigned: assigned == Some(profiles@[i].index),
                ..profiles@[i]
            }),
{
    let mut marked: Vec<ProfileInfo> = Vec::new();
    let mut i: usize = 0;
    while i < profiles.len()
        invariant
            i <= profiles@.len(),
            marked@.len() == i,
            forall|j: int|
                0 <= j < i ==> #[trigger] marked@[j] == (ProfileInfo {
                    assigned: assigned == Some(profiles@[j].index),
                    ..profiles@[j]
                }),
        decreases profiles@.len() - i,
    {
        let p = &profiles[i];
        let is_assigned = match assigned {
            Some(a) => a == p.index,
            None => false,
        };
        marked.push(
            ProfileInfo { index: p.index, name: p.name.clone(), active: p.active, assigned: is_assigned },
        );
        i += 1;
    }
    marked
}

/// The entry for onboard slot `slot` (zero-based) as the keyboard's
/// metadata gives it: none for an empty slot, otherwise its human-facing
/// number and its name, which must be a valid profile name.
pub fn keyboard_profile_entry(slot: u8, name: Option<String>) -> (r: Result<Option<(u8, String)>, NameError>)
    requires
        slot < PROFILE_COUNT,
    ensures
        match name {
            None => r == Ok::<Option<(u8, String)>, NameError>(None),
            Some(n) => match name_error(n@) {
                Some(e) => r == Err::<Option<(u8, String)>, NameError>(e),
                None => r == Ok::<Option<(u8, String)>, NameError>(Some(((slot + 1) as u8, n))),
            },
        },
{
    match name {
        None => Ok(None),
        Some(n) => {
            validate_profile_name(n.as_str())?;
            Ok(Some((slot + 1, n)))
        },
    }
}

/// The entries of `m` with keys below `k`, in increasing key order.
pub open spec fn entries_below(m: Map<u8, String>, k: int) -> Seq<(u8, String)>
    decreases k,
{
    if k <= 0 {
        seq![]
    } else if m.contains_key((k - 1) as u8) {
        entries_below(m, k - 1).push(((k - 1) as u8, m[(k - 1) as u8]))
    } else {
        entries_below(m, k - 1)
    }
}

/// The cached names in increasing profile order.
fn cached_entries(names: &BTreeMap<u8, String>) -> (entries: Vec<(u8, String)>)
    ensures
        entries@ == entries_below(names@, 256),
{
    let mut entries: Vec<(u8, String)> = Vec::new();
    let mut k: u16 = 0;
    while k < 256
        invariant
            k <= 256,
            entries@ == entries_below(names@, k as int),
        decreases 256 - k,
    {
        let key = k as u8;
        match names.get(&key) {
            Some(name) => {
                entries.push((key, name.clone()));
            },
            None => {},
        }
        k += 1;
    }
    entries
}

/// The generic label for profile `n`: `Profile <n>`.
pub open spec fn generic_label(n: nat) -> Seq<char> {
    seq!['P', 'r', 'o', 'f', 'i', 'l', 'e', ' '] + decimal_text(n)
}

/// Generic labels for P1-P4.
pub open spec fn generic_entries() -> Seq<(u8, Seq<char>)> {
    seq![
        (1u8, generic_label(1)),
        (2u8, generic_label(2)),
        (3u8, generic_label(3)),
        (4u8, generic_label(4)),
    ]
}

/// Generic labels for P1-P4.
fn generic_profiles() -> (entries: Vec<(u8, String)>)
    ensures
        entries@.len() == 4,
        forall|i: int|
            0 <= i < 4 ==> (#[trigger] entries@[i]).0 == generic_entries()[i].0 && entries@[i].1@
                == generic_entries()[i].1,
{
    let mut entries: Vec<(u8, String)> = Vec::new();
    let mut n: u8 = 1;
    while n <= PROFILE_COUNT
        invariant
            1 <= n <= 5,
            entries@.len() == n - 1,
            forall|i: int|
                0 <= i < n - 1 ==> (#[trigger] entries@[i]).0 == generic_entries()[i].0
                    && entries@[i].1@ == generic_entries()[i].1,
        decreases 5 - n,
    {
        let mut label = String::new();
        push_char(&mut label, 'P');
        push_char(&mut label, 'r');
        push_char(&mut label, 'o');
        push_char(&mut label, 'f');
        push_char(&mut label, 'i');
        push_char(&mut label, 'l');
        push_char(&mut label, 'e');
        push_char(&mut label, ' ');
        push_decimal(&mut label, n as u32);
        assert(label@ =~= generic_label(n as nat));
        entries.push((n, label));
        n += 1;
    }
    entries
}

/// A copy of a list of numbered names.
fn copy_pairs(v: &Vec<(u8, String)>) -> (copy: Vec<(u8, String)>)
    ensures
        copy@ == v@,
{
    let mut copy: Vec<(u8, String)> = Vec::new();
    let mut i: usize = 0;
    while i < v.len()
        invariant
            i <= v@.len(),
            copy@ == v@.subrange(0, i as int),
        decreases v@.len() - i,
    {
        copy.push((v[i].0, v[i].1.clone()));
        i += 1;
    }
    copy
}

/// The first non-empty list among `lists`.
pub open spec fn first_nonempty(lists: Seq<Vec<(u8, String)>>) -> Option<Seq<(u8, String)>>
    decreases lists.len(),
{
    if lists.len() == 0 {
        None
    } else if lists[0]@.len() > 0 {
        Some(lists[0]@)
    } else {
        first_nonempty(lists.drop_first())
    }
}

/// The human-facing number learned for `os`, if any.
pub open spec fn assigned_number(c: Config, os: HostOs) -> Option<u8> {
    match configured_profile_spec(c, os) {
        Ok(p) => Some((p + 1) as u8),
        Err(_) => None,
    }
}

/// Where a listing came from.
pub enum ListingSource {
    Keyboard,
    Browser,
    Cache,
    Generic,
}

/// Which source `discover_profiles` takes its names from: the keyboard
/// when its metadata was read, else the first non-empty list from
/// Wootility's browser cache, else the names cached in the configuration,
/// else generic labels.
pub open spec fn listing_source(
    keyboard: Option<Vec<(u8, String)>>,
    browser: Seq<Vec<(u8, String)>>,
    names: Map<u8, String>,
) -> ListingSource {
    if keyboard is Some {
        ListingSource::Keyboard
    } else if first_nonempty(browser) is Some {
        ListingSource::Browser
    } else if !names.is_empty() {
        ListingSource::Cache
    } else {
        ListingSource::Generic
    }
}

/// `lists[i]` is the first non-empty list.
pub open spec fn first_nonempty_at(lists: Seq<Vec<(u8, String)>>, i: int) -> bool {
    &&& 0 <= i < lists.len()
    &&& lists[i]@.len() > 0
    &&& forall|j: int| 0 <= j < i ==> (#[trigger] lists[j])@.len() == 0
}

proof fn lemma_first_nonempty_found(lists: Seq<Vec<(u8, String)>>, i: int)
    requires
        first_nonempty_at(lists, i),
    ensures
        first_nonempty(lists) == Some(lists[i]@),
    decreases i,
{
    if i > 0 {
        assert(lists[0]@.len() == 0);
        let rest = lists.drop_first();
        assert forall|j: int| 0 <= j < i - 1 implies (#[trigger] rest[j])@.len() == 0 by {
            assert(rest[j] == lists[j + 1]);
        }
        lemma_first_nonempty_found(rest, i - 1);
    }
}

proof fn lemma_first_nonempty_none(lists: Seq<Vec<(u8, String)>>)
    requires
        forall|j: int| 0 <= j < lists.len() ==> (#[trigger] lists[j])@.len() == 0,
    ensures
        first_nonempty(lists) is None,
    decreases lists.len(),
{
    if lists.len() > 0 {
        assert(lists[0]@.len() == 0);
        let rest = lists.drop_first();
        assert forall|j: int| 0 <= j < rest.len() implies (#[trigger] rest[j])@.len() == 0 by {
            assert(rest[j] == lists[j + 1]);
        }
        lemma_first_nonempty_none(rest);
    }
}

/// The order of the sources: names read from the keyboard come first,
/// whatever else is known; without them and without any non-empty browser
/// list, the cached names are used when there are any, and generic labels
/// otherwise.
pub proof fn lemma_listing_source_order(
    keyboard: Option<Vec<(u8, String)>>,
    browser: Seq<Vec<(u8, String)>>,
    names: Map<u8, String>,
)
    ensures
        keyboard is Some ==> listing_source(keyboard, browser, names) == ListingSource::Keyboard,
        keyboard is None && (forall|j: int| 0 <= j < browser.len() ==> (#[trigger] browser[j])@.len()
            == 0) ==> listing_source(keyboard, browser, names) == if names.is_empty() {
            ListingSource::Generic
        } else {
            ListingSource::Cache
        },
{
    if forall|j: int| 0 <= j < browser.len() ==> (#[trigger] browser[j])@.len() == 0 {
        lemma_first_nonempty_none(browser);
    }
}

/// Wootility's browser state comes before the names cached in the
/// configuration: without keyboard metadata, a non-empty browser list is
/// used (the first one, in browser-profile order) whatever names the
/// configuration had cached before.
pub proof fn lemma_browser_names_before_cached_names(
    browser: Seq<Vec<(u8, String)>>,
    names: Map<u8, String>,
    i: int,
)
    requires
        first_nonempty_at(browser, i),
    ensures
        listing_source(None, browser, names) == ListingSource::Browser,
        first_nonempty(browser) == Some(browser[i]@),
{
    lemma_first_nonempty_found(browser, i);
}

/// Lists the onboard profiles from the first source that has them, in the
/// order keyboard metadata, Wootility's browser cache, the names cached in
/// the configuration, generic labels. Names read from the keyboard or the
/// browser replace the cached ones. `keyboard` holds the names read from
/// the keyboard's metadata (if that succeeded), `browser` the lists read
/// from each browser profile (in order), `current` the slot the keyboard
/// runs (human-facing).
pub fn discover_profiles(
    keyboard: Option<Vec<(u8, String)>>,
    browser: &Vec<Vec<(u8, String)>>,
    config: &mut Config,
    current: Option<u8>,
    os: HostOs,
) -> (info: Vec<ProfileInfo>)
    ensures
        ({
            let assigned = assigned_number(*old(config), os);
            match listing_source(keyboard, browser@, old(config).profile_names@) {
                ListingSource::Keyboard => {
                    &&& describes(info@, keyboard->0@, current, assigned)
                    &&& final(config).profile_names@ == pairs_to_map(keyboard->0@)
                    &&& *final(config) == (Config {
                        profile_names: final(config).profile_names,
                        ..*old(config)
                    })
                },
                ListingSource::Browser => {
                    &&& describes(info@, first_nonempty(browser@)->0, current, assigned)
                    &&& final(config).profile_names@ == pairs_to_map(
                        first_nonempty(browser@)->0,
                    )
                    &&& *final(config) == (Config {
                        profile_names: final(config).profile_names,
                        ..*old(config)
                    })
                },
                ListingSource::Cache => {
                    &&& describes(info@, entries_below(old(config).profile_names@, 256), current, assigned)
                    &&& *final(config) == *old(config)
                },
                ListingSource::Generic => {
                    &&& info@.len() == 4
                    &&& forall|i: int|
                        0 <= i < 4 ==> {
                            &&& (#[trigger] info@[i]).index == generic_entries()[i].0
                            &&& info@[i].name@ == generic_entries()[i].1
                            &&& info@[i].active == (current == Some(generic_entries()[i].0))
                            &&& info@[i].assigned == (assigned == Some(generic_entries()[i].0))
                        }
                    &&& *final(config) == *old(config)
                },
            }
        }),
        keyboard is None ==> forall|i: int|
            #[trigger] first_nonempty_at(browser@, i) ==> {
                &&& describes(info@, browser@[i]@, current, assigned_number(*old(config), os))
                &&& final(config).profile_names@ == pairs_to_map(browser@[i]@)
                &&& *final(config) == (Config {
                    profile_names: final(config).profile_names,
                    ..*old(config)
                })
            },
{
    proof {
        assert forall|i: int| #[trigger] first_nonempty_at(browser@, i) implies first_nonempty(
            browser@,
        ) == Some(browser@[i]@) by {
            lemma_first_nonempty_found(browser@, i);
        }
    }
    let assigned = match config.configured_profile(os) {
        Ok(p) => Some(p + 1),
        Err(_) => None,
    };
    if let Some(profiles) = keyboard {
        cache_profile_names(config, profiles.as_slice());
        return profile_info(profiles, current, assigned);
    }
    let mut i: usize = 0;
    assert(browser@.subrange(0, browser@.len() as int) == browser@);
    while i < browser.len()
        invariant
            i <= browser@.len(),
            keyboard is None,
            *config == *old(config),
            assigned == assigned_number(*old(config), os),
            first_nonempty(browser@.subrange(i as int, browser@.len() as int)) == first_nonempty(
                browser@,
            ),
            forall|j: int| #[trigger] first_nonempty_at(browser@, j) ==> first_nonempty(browser@)
                == Some(browser@[j]@),
        decreases browser@.len() - i,
    {
        assert(browser@.subrange(i as int, browser@.len() as int).drop_first() == browser@.subrange(
            i + 1,
            browser@.len() as int,
        ));
        if browser[i].len() > 0 {
            let profiles = copy_pairs(&browser[i]);
            cache_profile_names(config, profiles.as_slice());
            return profile_info(profiles, current, assigned);
        }
        i += 1;
    }
    if !config.profile_names.is_empty() {
        let entries = cached_entries(&config.profile_names);
        return profile_info(entries, current, assigned);
    }
    let entries = generic_profiles();
    let info = profile_info(entries, current, assigned);
    info
}

/// The number of Wootility App Linking profiles: the first count that a
/// browser profile's cache reports.
pub fn discover_linked_profile_count(counts: &[Option<usize>]) -> (r: Option<usize>)
    ensures
        r is None <==> forall|i: int| 0 <= i < counts@.len() ==> #[trigger] counts@[i] is None,
        r is Some ==> exists|i: int|
            0 <= i < counts@.len() && counts@[i] == r && forall|j: int|
                0 <= j < i ==> #[trigger] counts@[j] is None,
{
    let mut i: usize = 0;
    while i < counts.len()
        invariant
            i <= counts@.len(),
            forall|j: int| 0 <= j < i ==> #[trigger] counts@[j] is None,
        decreases counts@.len() - i,
    {
        if counts[i].is_some() {
            return counts[i];
        }
        i += 1;
    }
    None
}

/// The profile the configuration dialog preselects: the one learned for
/// this system, else the active one, else the first listed.
pub fn default_selection(profiles: &Vec<ProfileInfo>, assigned: Option<u8>) -> (selected: u8)
    requires
        profiles@.len() > 0,
    ensures
        assigned is Some ==> selected == assigned->0,
        assigned is None && (exists|i: int| 0 <= i < profiles@.len() && (#[trigger] profiles@[i]).active) ==> exists|i: int|
            0 <= i < profiles@.len() && profiles@[i].active && selected == profiles@[i].index
                && forall|j: int| 0 <= j < i ==> !(#[trigger] profiles@[j]).active,
        assigned is None && (forall|i: int| 0 <= i < profiles@.len() ==> !(#[trigger] profiles@[i]).active) ==> selected == profiles@[0].index,
{
    if let Some(a) = assigned {
        return a;
    }
    let mut i: usize = 0;
    while i < profiles.len()
        invariant
            i <= profiles@.len(),
            assigned is None,
            forall|j: int| 0 <= j < i ==> !(#[trigger] profiles@[j]).active,
        decreases profiles@.len() - i,
    {
        if profiles[i].active {
            return profiles[i].index;
        }
        i += 1;
    }
    profiles[0].index
}

/// Whether `selected` is one of the listed profiles.
pub fn profile_listed(profiles: &Vec<ProfileInfo>, selected: u8) -> (listed: bool)
    ensures
        listed == exists|i: int| 0 <= i < profiles@.len() && (#[trigger] profiles@[i]).index == selected,
{
    let mut i: usize = 0;
    while i < profiles.len()
        invariant
            i <= profiles@.len(),
            forall|j: int| 0 <= j < i ==> (#[trigger] profiles@[j]).index != selected,
        decreases profiles@.len() - i,
    {
        if profiles[i].index == selected {
            return true;
        }
        i += 1;
    }
    false
}

} // verus!
