//! The local configuration: the Hub that the user is logged in to, and the profiles that
//! were synced from it.

use vstd::prelude::*;
use vstd::string::*;
use crate::text;
use crate::types::{ServiceConfig, ServiceModel};

verus! {

/// A profile, as it was last synced from the Hub.
#[derive(Debug)]
pub struct ProfileConfig {
    pub name: String,
    pub services: Vec<ServiceConfig>,
    pub synced_at: Option<String>,
}

/// The model of a [`ProfileConfig`].
#[verifier::ext_equal]
pub struct ProfileConfigModel {
    pub name: Seq<char>,
    pub services: Seq<ServiceModel>,
    pub synced_at: Option<Seq<char>>,
}

impl View for ProfileConfig {
    type V = ProfileConfigModel;

    open spec fn view(&self) -> ProfileConfigModel {
        ProfileConfigModel {
            name: self.name@,
            services: self.services.deep_view(),
            synced_at: self.synced_at.deep_view(),
        }
    }
}

impl DeepView for ProfileConfig {
    type V = ProfileConfigModel;

    open spec fn deep_view(&self) -> ProfileConfigModel {
        self.view()
    }
}

/// The profiles of a configuration, each with its id.
pub type Profiles = Seq<(Seq<char>, ProfileConfigModel)>;

/// The local configuration.
#[derive(Debug)]
pub struct AppConfig {
    pub hub_url: Option<String>,
    pub oauth_token: Option<String>,
    pub default_profile: Option<String>,
    /// The profiles, each with its id.
    pub profiles: Vec<(String, ProfileConfig)>,
}

/// The model of an [`AppConfig`].
#[verifier::ext_equal]
pub struct ConfigModel {
    pub hub_url: Option<Seq<char>>,
    pub oauth_token: Option<Seq<char>>,
    pub default_profile: Option<Seq<char>>,
    pub profiles: Profiles,
}

impl View for AppConfig {
    type V = ConfigModel;

    open spec fn view(&self) -> ConfigModel {
        ConfigModel {
            hub_url: self.hub_url.deep_view(),
            oauth_token: self.oauth_token.deep_view(),
            default_profile: self.default_profile.deep_view(),
            profiles: self.profiles.deep_view(),
        }
    }
}

/// Where the profile `id` first stands in `profiles`; their number where it does not.
pub open spec fn place_of(profiles: Profiles, id: Seq<char>) -> int
    decreases profiles.len(),
{
    if profiles.len() == 0 || profiles[0].0 == id {
        0
    } else {
        1 + place_of(profiles.drop_first(), id)
    }
}

/// The profile `id`.
pub open spec fn profile_of(profiles: Profiles, id: Seq<char>) -> Option<ProfileConfigModel> {
    let place = place_of(profiles, id);
    if place < profiles.len() {
        Some(profiles[place].1)
    } else {
        None
    }
}

/// `profiles` with `profile` under `id`: in place of the profile that was there, or at
/// the end.
pub open spec fn with_profile(
    profiles: Profiles,
    id: Seq<char>,
    profile: ProfileConfigModel,
) -> Profiles {
    let place = place_of(profiles, id);
    if place < profiles.len() {
        profiles.update(place, (id, profile))
    } else {
        profiles.push((id, profile))
    }
}

/// No two profiles have the same id.
pub open spec fn distinct_ids(profiles: Profiles) -> bool {
    forall|i: int, j: int|
        0 <= i < j < profiles.len() ==> (#[trigger] profiles[i]).0 != (#[trigger] profiles[j]).0
}

/// The place of a profile is the first one with its id.
pub proof fn lemma_place_of(profiles: Profiles, id: Seq<char>)
    ensures
        0 <= place_of(profiles, id) <= profiles.len(),
        place_of(profiles, id) < profiles.len() ==> profiles[place_of(profiles, id)].0 == id,
        forall|i: int| 0 <= i < place_of(profiles, id) ==> (#[trigger] profiles[i]).0 != id,
    decreases profiles.len(),
{
    if profiles.len() > 0 && profiles[0].0 != id {
        let rest = profiles.drop_first();
        lemma_place_of(rest, id);
        assert forall|i: int| 0 <= i < place_of(profiles, id) implies (#[trigger] profiles[i]).0
            != id by {
            if i > 0 {
                assert(rest[i - 1] == profiles[i]);
            }
        }
    }
}

/// A place with the id, and none before it, is the place of the profile.
proof fn lemma_place_is(profiles: Profiles, id: Seq<char>, place: int)
    requires
        0 <= place <= profiles.len(),
        place < profiles.len() ==> profiles[place].0 == id,
        forall|i: int| 0 <= i < place ==> (#[trigger] profiles[i]).0 != id,
    ensures
        place_of(profiles, id) == place,
{
    lemma_place_of(profiles, id);
    if place_of(profiles, id) < place {
        assert(profiles[place_of(profiles, id)].0 == id);
    }
}

impl AppConfig {
    /// The configuration of a user who has not logged in.
    pub fn new() -> (r: Self)
        ensures
            r@ == (ConfigModel {
                hub_url: None,
                oauth_token: None,
                default_profile: None,
                profiles: Seq::empty(),
            }),
    {
        let profiles: Vec<(String, ProfileConfig)> = Vec::new();
        assert(profiles.deep_view() == Profiles::empty());
        AppConfig { hub_url: None, oauth_token: None, default_profile: None, profiles }
    }

    /// Sets the Hub, the token and, where one is given, the default profile.
    pub fn set_login(&mut self, hub_url: String, oauth_token: String, default_profile: Option<String>)
        ensures
            final(self)@ == (ConfigModel {
                hub_url: Some(hub_url@),
                oauth_token: Some(oauth_token@),
                default_profile: match default_profile {
                    Some(id) => Some(id@),
                    None => old(self)@.default_profile,
                },
                profiles: old(self)@.profiles,
            }),
    {
        self.hub_url = Some(hub_url);
        self.oauth_token = Some(oauth_token);
        if let Some(id) = default_profile {
            self.default_profile = Some(id);
        }
    }

    /// The place of the profile `id`, if there is one.
    fn find_profile(&self, id: &str) -> (r: Option<usize>)
        ensures
            match r {
                Some(i) => i < self.profiles@.len() && place_of(self@.profiles, id@) == i,
                None => place_of(self@.profiles, id@) == self.profiles@.len(),
            },
    {
        let ghost all = self@.profiles;
        for i in 0..self.profiles.len()
            invariant
                all == self@.profiles,
                all == self.profiles.deep_view(),
                forall|j: int| 0 <= j < i ==> (#[trigger] all[j]).0 != id@,
        {
            assert(all[i as int] == (self.profiles@[i as int].0@, self.profiles@[i as int].1@));
            if text::str_eq(self.profiles[i].0.as_str(), id) {
                proof {
                    lemma_place_is(all, id@, i as int);
                }
                return Some(i);
            }
        }
        proof {
            lemma_place_is(all, id@, all.len() as int);
        }
        None
    }

    /// The profile `id`.
    pub fn get_profile(&self, id: &str) -> (r: Option<&ProfileConfig>)
        ensures
            r.deep_view() == profile_of(self@.profiles, id@),
    {
        match self.find_profile(id) {
            Some(i) => {
                assert(self@.profiles[i as int].1 == self.profiles@[i as int].1@);
                Some(&self.profiles[i].1)
            },
            None => None,
        }
    }

    /// Puts `profile` under `id`, in place of any other that was there.
    pub fn insert_profile(&mut self, id: String, profile: ProfileConfig)
        ensures
            final(self)@ == (ConfigModel {
                profiles: with_profile(old(self)@.profiles, id@, profile@),
                ..old(self)@
            }),
    {
        let ghost before = self@.profiles;
        match self.find_profile(id.as_str()) {
            Some(i) => {
                self.profiles.set(i, (id, profile));
                assert(self@.profiles == before.update(i as int, (id@, profile@)));
            },
            None => {
                self.profiles.push((id, profile));
                assert(self@.profiles == before.push((id@, profile@)));
            },
        }
    }
}

/// A profile that was put under an id is found there.
pub proof fn law_inserted_profile_is_found(
    profiles: Profiles,
    id: Seq<char>,
    profile: ProfileConfigModel,
)
    ensures
        profile_of(with_profile(profiles, id, profile), id) == Some(profile),
{
    lemma_place_of(profiles, id);
    lemma_place_is(with_profile(profiles, id, profile), id, place_of(profiles, id));
}

/// Putting a profile under an id changes no other profile.
pub proof fn law_insert_keeps_other_profiles(
    profiles: Profiles,
    id: Seq<char>,
    profile: ProfileConfigModel,
    other: Seq<char>,
)
    requires
        other != id,
    ensures
        profile_of(with_profile(profiles, id, profile), other) == profile_of(profiles, other),
{
    lemma_place_of(profiles, id);
    lemma_place_of(profiles, other);
    let after = with_profile(profiles, id, profile);
    let place = place_of(profiles, other);
    if place < profiles.len() {
        lemma_place_is(after, other, place);
    } else {
        lemma_place_is(after, other, after.len() as int);
    }
}

/// Putting a profile under an id keeps the ids distinct.
pub proof fn law_insert_keeps_ids_distinct(
    profiles: Profiles,
    id: Seq<char>,
    profile: ProfileConfigModel,
)
    requires
        distinct_ids(profiles),
    ensures
        distinct_ids(with_profile(profiles, id, profile)),
{
    lemma_place_of(profiles, id);
}

/// A profile is found under exactly its id: the first that has it, and none only where no
/// profile has it.
pub proof fn law_profile_is_found_by_its_id(profiles: Profiles, id: Seq<char>)
    ensures
        match profile_of(profiles, id) {
            Some(profile) => exists|i: int|
                {
                    &&& 0 <= i < profiles.len()
                    &&& #[trigger] profiles[i] == (id, profile)
                    &&& forall|j: int| 0 <= j < i ==> (#[trigger] profiles[j]).0 != id
                },
            None => forall|j: int| 0 <= j < profiles.len() ==> (#[trigger] profiles[j]).0 != id,
        },
{
    lemma_place_of(profiles, id);
    let place = place_of(profiles, id);
    if place < profiles.len() {
        assert(profiles[place] == (id, profiles[place].1));
    }
}

/// Putting a profile under an id that is there changes one place, and under a new id adds
/// one place at the end; every other place stays as it was.
pub proof fn law_insert_touches_one_place(
    profiles: Profiles,
    id: Seq<char>,
    profile: ProfileConfigModel,
)
    ensures
        ({
            let after = with_profile(profiles, id, profile);
            &&& (forall|j: int| 0 <= j < profiles.len() ==> (#[trigger] profiles[j]).0 != id)
                ==> after == profiles.push((id, profile))
            &&& (exists|j: int| 0 <= j < profiles.len() && (#[trigger] profiles[j]).0 == id)
                ==> exists|i: int|
                {
                    &&& 0 <= i < profiles.len()
                    &&& profiles[i].0 == id
                    &&& after == #[trigger] profiles.update(i, (id, profile))
                }
        }),
{
    lemma_place_of(profiles, id);
    let place = place_of(profiles, id);
    if place < profiles.len() {
        assert(profiles[place].0 == id);
        assert(with_profile(profiles, id, profile) == profiles.update(place, (id, profile)));
    }
}

/// Two configurations have the same model only where they hold the same.
pub proof fn law_config_model_leaves_nothing_out(
    configs: (AppConfig, AppConfig),
    profiles: (ProfileConfig, ProfileConfig),
)
    ensures
        configs.0@ == configs.1@ <==> {
            &&& configs.0.hub_url.deep_view() == configs.1.hub_url.deep_view()
            &&& configs.0.oauth_token.deep_view() == configs.1.oauth_token.deep_view()
            &&& configs.0.default_profile.deep_view() == configs.1.default_profile.deep_view()
            &&& configs.0.profiles.deep_view() == configs.1.profiles.deep_view()
        },
        profiles.0.deep_view() == profiles.1.deep_view() <==> {
            &&& profiles.0.name@ == profiles.1.name@
            &&& profiles.0.services.deep_view() == profiles.1.services.deep_view()
            &&& profiles.0.synced_at.deep_view() == profiles.1.synced_at.deep_view()
        },
{
}

} // verus!
