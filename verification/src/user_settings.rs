use vstd::prelude::*;

use crate::enums::{AssemblingMachineLevel, FurnaceLevel};
use crate::strutil::str_eq;

verus! {

/// Per-user knobs that parameterize one resolution: the technology tiers
/// that select production modifiers, and the whole-number normalization
/// switches.
#[derive(Clone, Copy, Debug, PartialEq, Eq, Structural)]
pub struct UserSettings {
    pub assembling_machine_level: AssemblingMachineLevel,
    pub furnace_level: FurnaceLevel,
    pub whole_numbers: bool,
    pub ignore_furnaces_for_ratio: bool,
    pub ignore_raw_for_ratio: bool,
}

/// The documented defaults: lowest tiers, no whole-number normalization.
pub open spec fn default_settings() -> UserSettings {
    UserSettings {
        assembling_machine_level: AssemblingMachineLevel::One,
        furnace_level: FurnaceLevel::Stone,
        whole_numbers: false,
        ignore_furnaces_for_ratio: false,
        ignore_raw_for_ratio: false,
    }
}

impl Default for UserSettings {
    fn default() -> (r: Self)
        ensures
            r == default_settings(),
    {
        UserSettings {
            assembling_machine_level: AssemblingMachineLevel::One,
            furnace_level: FurnaceLevel::Stone,
            whole_numbers: false,
            ignore_furnaces_for_ratio: false,
            ignore_raw_for_ratio: false,
        }
    }
}

/// The settings of each named user, keyed by exact user name.
pub struct UserSettingsDatabase {
    pub entries: Vec<(String, UserSettings)>,
}

/// The stored association as a map from user name to settings.
pub open spec fn settings_map_of(s: Seq<(String, UserSettings)>) -> Map<Seq<char>, UserSettings>
    decreases s.len(),
{
    if s.len() == 0 {
        Map::empty()
    } else {
        settings_map_of(s.drop_last()).insert(s.last().0@, s.last().1)
    }
}

impl UserSettingsDatabase {
    /// Well-formedness: one entry per user name.
    pub open spec fn wf(self) -> bool {
        forall|i: int, j: int|
            0 <= i < j < self.entries@.len() ==> (#[trigger] self.entries@[i]).0@ != (
            #[trigger] self.entries@[j]).0@
    }

    pub open spec fn view(self) -> Map<Seq<char>, UserSettings> {
        settings_map_of(self.entries@)
    }

    pub fn new() -> (r: Self)
        ensures
            r.wf(),
            r@ == Map::<Seq<char>, UserSettings>::empty(),
    {
        UserSettingsDatabase { entries: Vec::new() }
    }

    /// Stores `settings` for `name`, replacing any previous record.
    pub fn update(&mut self, name: &str, settings: UserSettings)
        requires
            old(self).wf(),
        ensures
            final(self).wf(),
            final(self)@ == old(self)@.insert(name@, settings),
    {
        let n = self.entries.len();
        let mut i: usize = 0;
        while i < n
            invariant
                0 <= i <= n,
                n == self.entries@.len(),
                self.wf(),
                self.entries@ == old(self).entries@,
                forall|j: int| 0 <= j < i ==> (#[trigger] self.entries@[j]).0@ != name@,
            decreases n - i,
        {
            if str_eq(self.entries[i].0.as_str(), name) {
                let s = (self.entries[i].0.clone(), settings);
                self.entries.set(i, s);
                proof {
                    lemma_settings_map_update(old(self).entries@, i as int, settings);
                }
                return ;
            }
            i += 1;
        }
        self.entries.push((name.to_owned(), settings));
        proof {
            assert(self.entries@.drop_last() =~= old(self).entries@);
        }
    }

    /// The stored settings for `name`, or the defaults when none are
    /// stored yet.
    pub fn get(&self, name: &str) -> (r: UserSettings)
        requires
            self.wf(),
        ensures
            r == if self@.dom().contains(name@) {
                self@[name@]
            } else {
                default_settings()
            },
    {
        let n = self.entries.len();
        let mut i: usize = 0;
        while i < n
            invariant
                0 <= i <= n,
                n == self.entries@.len(),
                self.wf(),
                forall|j: int| 0 <= j < i ==> (#[trigger] self.entries@[j]).0@ != name@,
            decreases n - i,
        {
            if str_eq(self.entries[i].0.as_str(), name) {
                proof {
                    lemma_settings_map_index(self.entries@, i as int);
                }
                return self.entries[i].1;
            }
            i += 1;
        }
        proof {
            lemma_settings_map_contains(self.entries@, name@);
        }
        UserSettings::default()
    }
}

/// Map membership mirrors entry membership.
proof fn lemma_settings_map_contains(s: Seq<(String, UserSettings)>, k: Seq<char>)
    ensures
        settings_map_of(s).dom().contains(k) <==> exists|i: int|
            0 <= i < s.len() && (#[trigger] s[i]).0@ == k,
    decreases s.len(),
{
    if s.len() > 0 {
        lemma_settings_map_contains(s.drop_last(), k);
        if settings_map_of(s).dom().contains(k) && s.last().0@ != k {
            let i = choose|i: int| 0 <= i < s.drop_last().len() && (#[trigger] s.drop_last()[i]).0@ == k;
            assert(s[i].0@ == k);
        }
        if exists|i: int| 0 <= i < s.len() && (#[trigger] s[i]).0@ == k {
            let i = choose|i: int| 0 <= i < s.len() && (#[trigger] s[i]).0@ == k;
            if i < s.len() - 1 {
                assert(s.drop_last()[i].0@ == k);
            }
        }
    }
}

/// With distinct keys, the map agrees with each entry.
proof fn lemma_settings_map_index(s: Seq<(String, UserSettings)>, i: int)
    requires
        0 <= i < s.len(),
        forall|p: int, q: int| 0 <= p < q < s.len() ==> (#[trigger] s[p]).0@ != (#[trigger] s[q]).0@,
    ensures
        settings_map_of(s).dom().contains(s[i].0@),
        settings_map_of(s)[s[i].0@] == s[i].1,
    decreases s.len(),
{
    if i < s.len() - 1 {
        lemma_settings_map_index(s.drop_last(), i);
        assert(s.drop_last()[i] == s[i]);
        assert(s[i].0@ != s.last().0@);
    }
}

/// Updating one entry updates the map at its key.
proof fn lemma_settings_map_update(s: Seq<(String, UserSettings)>, i: int, v: UserSettings)
    requires
        0 <= i < s.len(),
        forall|p: int, q: int| 0 <= p < q < s.len() ==> (#[trigger] s[p]).0@ != (#[trigger] s[q]).0@,
    ensures
        forall|r: (String, UserSettings)|
            r.0@ == s[i].0@ ==> settings_map_of(s.update(i, r)) == settings_map_of(s).insert(
                s[i].0@,
                r.1,
            ),
    decreases s.len(),
{
    assert forall|r: (String, UserSettings)|
        r.0@ == s[i].0@ implies settings_map_of(s.update(i, r)) == settings_map_of(s).insert(
        s[i].0@,
        r.1,
    ) by {
        let su = s.update(i, r);
        if i == s.len() - 1 {
            assert(su.drop_last() =~= s.drop_last());
            assert(settings_map_of(su) =~= settings_map_of(s).insert(s[i].0@, r.1));
        } else {
            lemma_settings_map_update(s.drop_last(), i, v);
            assert(su.drop_last() =~= s.drop_last().update(i, r));
            assert(s.drop_last()[i] == s[i]);
            assert(settings_map_of(su.drop_last()) == settings_map_of(s.drop_last()).insert(
                s[i].0@,
                r.1,
            ));
            assert(s[i].0@ != s.last().0@);
            assert(settings_map_of(su) =~= settings_map_of(s).insert(s[i].0@, r.1));
        }
    }
}

} // verus!
