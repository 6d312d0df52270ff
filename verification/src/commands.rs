//! The commands of the command line tool: what they look up, change and report.

use vstd::prelude::*;
use vstd::string::*;
use crate::config;
use crate::config::{AppConfig, ConfigModel, ProfileConfig, ProfileConfigModel, Profiles};
use crate::hub_client::{HubClient, ProfileModel, ProfileResponse};
use crate::text;
use crate::types;
use crate::types::{CredentialEntry, CredentialModel, ServiceConfig, ServiceModel};

verus! {

broadcast use vstd::string::group_string_axioms;

/// Where a profile with the name `name` first stands in `profiles`; their number where
/// none does.
pub open spec fn place_of_name(profiles: Profiles, name: Seq<char>) -> int
    decreases profiles.len(),
{
    if profiles.len() == 0 || profiles[0].1.name == name {
        0
    } else {
        1 + place_of_name(profiles.drop_first(), name)
    }
}

/// The place of a name is the first profile that has it.
proof fn lemma_place_of_name(profiles: Profiles, name: Seq<char>)
    ensures
        0 <= place_of_name(profiles, name) <= profiles.len(),
        place_of_name(profiles, name) < profiles.len() ==> profiles[place_of_name(
            profiles,
            name,
        )].1.name == name,
        forall|i: int|
            0 <= i < place_of_name(profiles, name) ==> (#[trigger] profiles[i]).1.name != name,
    decreases profiles.len(),
{
    if profiles.len() > 0 && profiles[0].1.name != name {
        let rest = profiles.drop_first();
        lemma_place_of_name(rest, name);
        assert forall|i: int| 0 <= i < place_of_name(profiles, name) implies (#[trigger]
        profiles[i]).1.name != name by {
            if i > 0 {
                assert(rest[i - 1] == profiles[i]);
            }
        }
    }
}

/// The id of the profile that `name_or_id` stands for: a name is tried first, then an id;
/// without either, it is the default profile.
pub open spec fn resolved(config: ConfigModel, name_or_id: Option<Seq<char>>) -> Result<
    Seq<char>,
    Seq<char>,
> {
    match name_or_id {
        Some(wanted) => {
            let named = place_of_name(config.profiles, wanted);
            if named < config.profiles.len() {
                Ok(config.profiles[named].0)
            } else if config::profile_of(config.profiles, wanted) is Some {
                Ok(wanted)
            } else {
                Err("profile '"@ + wanted + "' not found. Run `cv sync` first."@)
            }
        },
        None => match config.default_profile {
            Some(id) => Ok(id),
            None => Err("no default profile set. Use --profile or run `cv login`"@),
        },
    }
}

/// Finds the profile that a command is about.
pub fn resolve_profile(config: &AppConfig, name_or_id: Option<&str>) -> (r: Result<String, String>)
    ensures
        types::result_model(r) == resolved(config@, name_or_id.deep_view()),
{
    let wanted = match name_or_id {
        Some(wanted) => wanted,
        None => {
            return match &config.default_profile {
                Some(id) => Ok(id.clone()),
                None => Err(
                    "no default profile set. Use --profile or run `cv login`".to_string(),
                ),
            };
        },
    };
    let ghost all = config@.profiles;
    assert(all.skip(0) == all);
    for i in 0..config.profiles.len()
        invariant
            name_or_id == Some(wanted),
            all == config@.profiles,
            place_of_name(all, wanted@) == i + place_of_name(all.skip(i as int), wanted@),
    {
        proof {
            assert(all[i as int] == (config.profiles@[i as int].0@, config.profiles@[i as int].1@));
            assert(all.skip(i as int)[0] == all[i as int]);
            assert(all.skip(i as int).drop_first() == all.skip(i + 1));
        }
        if text::str_eq(config.profiles[i].1.name.as_str(), wanted) {
            return Ok(config.profiles[i].0.clone());
        }
    }
    if config.get_profile(wanted).is_some() {
        Ok(wanted.to_string())
    } else {
        let mut message = "profile '".to_string();
        message.append(wanted);
        message.append("' not found. Run `cv sync` first.");
        Err(message)
    }
}

/// A name or id resolves to a profile of the configuration that has that name or that id.
pub proof fn law_resolved_profile_exists(config: ConfigModel, wanted: Seq<char>)
    ensures
        resolved(config, Some(wanted)) matches Ok(id) ==> {
            &&& config::profile_of(config.profiles, id) is Some
            &&& id == wanted || exists|i: int|
                0 <= i < config.profiles.len() && (#[trigger] config.profiles[i]).0 == id
                    && config.profiles[i].1.name == wanted
        },
        resolved(config, Some(wanted)) is Err <==> forall|i: int|
            0 <= i < config.profiles.len() ==> (#[trigger] config.profiles[i]).0 != wanted
                && config.profiles[i].1.name != wanted,
{
    let profiles = config.profiles;
    lemma_place_of_name(profiles, wanted);
    config::lemma_place_of(profiles, wanted);
    let named = place_of_name(profiles, wanted);
    if named < profiles.len() {
        let id = profiles[named].0;
        config::lemma_place_of(profiles, id);
        assert(config::place_of(profiles, id) <= named);
    }
}

/// The profile that the server is to be started for.
pub fn serve_profile<'a>(config: &'a AppConfig, profile_id: &str) -> (r: Result<
    &'a ProfileConfig,
    String,
>)
    ensures
        r is Ok <==> config::profile_of(config@.profiles, profile_id@) is Some,
        r matches Ok(profile) ==> config::profile_of(config@.profiles, profile_id@) == Some(
            profile@,
        ),
        r matches Err(message) ==> message@ == "profile not found in local config"@,
{
    match config.get_profile(profile_id) {
        Some(profile) => Ok(profile),
        None => Err("profile not found in local config".to_string()),
    }
}

/// The client of the Hub that the user is logged in to: its address and token, or the
/// message for a user who is not logged in. `no_token` is that message where only the
/// token is missing.
pub open spec fn session(config: ConfigModel, no_token: Seq<char>) -> Result<
    (Seq<char>, Seq<char>),
    Seq<char>,
> {
    match (config.hub_url, config.oauth_token) {
        (Some(url), Some(token)) => Ok((url, token)),
        (Some(_), None) => Err(no_token),
        (None, _) => Err("not logged in. Run `cv login` first."@),
    }
}

/// The model of a client that a command wants to have.
pub open spec fn client_model(r: Result<HubClient, String>) -> Result<
    (Seq<char>, Seq<char>),
    Seq<char>,
> {
    match r {
        Ok(client) => Ok((client.hub_url@, client.oauth_token@)),
        Err(message) => Err(message@),
    }
}

/// The client for a command, with `no_token` as the message where the token is missing.
fn hub_session(config: &AppConfig, no_token: &str) -> (r: Result<HubClient, String>)
    ensures
        client_model(r) == session(config@, no_token@),
{
    match &config.hub_url {
        Some(url) => match &config.oauth_token {
            Some(token) => Ok(HubClient::new(url.clone(), token.clone())),
            None => Err(no_token.to_string()),
        },
        None => Err("not logged in. Run `cv login` first.".to_string()),
    }
}

/// The client that the server works with.
pub fn serve_session(config: &AppConfig) -> (r: Result<HubClient, String>)
    ensures
        client_model(r) == session(config@, "not logged in. Run `cv login` first."@),
{
    hub_session(config, "not logged in. Run `cv login` first.")
}

/// The client that a sync works with.
pub fn sync_session(config: &AppConfig) -> (r: Result<HubClient, String>)
    ensures
        client_model(r) == session(config@, "no OAuth token. Run `cv login` first."@),
{
    hub_session(config, "no OAuth token. Run `cv login` first.")
}

/// The address of a Hub as it is kept: without slashes at the end.
pub fn normalized_hub_url(hub_url: &str) -> (r: String)
    ensures
        r@ == text::without_trailing_slashes(hub_url@),
{
    text::trim_end_slashes(hub_url).to_string()
}

/// A normalized address does not end with a slash, so that normalizing it again changes
/// nothing; and only slashes were cut off.
pub proof fn law_normalized_url_has_no_trailing_slash(url: Seq<char>)
    ensures
        ({
            let kept = text::without_trailing_slashes(url);
            &&& kept.len() > 0 ==> kept.last() != '/'
            &&& text::without_trailing_slashes(kept) == kept
            &&& kept.len() <= url.len() && kept == url.take(kept.len() as int)
            &&& forall|i: int| kept.len() <= i < url.len() ==> #[trigger] url[i] == '/'
        }),
    decreases url.len(),
{
    if url.len() > 0 && url.last() == '/' {
        law_normalized_url_has_no_trailing_slash(url.drop_last());
        let kept = text::without_trailing_slashes(url);
        assert(url.drop_last().take(kept.len() as int) == url.take(kept.len() as int));
        assert forall|i: int| kept.len() <= i < url.len() implies #[trigger] url[i] == '/' by {
            if i < url.len() - 1 {
                assert(url.drop_last()[i] == url[i]);
            }
        }
    } else {
        assert(url.take(url.len() as int) == url);
    }
}

/// A profile that was fetched from the Hub, with its services and the time of the fetch.
#[derive(Debug)]
pub struct FetchedProfile {
    pub id: String,
    pub name: String,
    pub services: Vec<ServiceConfig>,
    pub synced_at: String,
}

impl FetchedProfile {
    /// The id, and the profile as the configuration keeps it.
    pub open spec fn entry(self) -> (Seq<char>, ProfileConfigModel) {
        (
            self.id@,
            ProfileConfigModel {
                name: self.name@,
                services: self.services.deep_view(),
                synced_at: Some(self.synced_at@),
            },
        )
    }
}

impl DeepView for FetchedProfile {
    type V = (Seq<char>, ProfileConfigModel);

    open spec fn deep_view(&self) -> (Seq<char>, ProfileConfigModel) {
        self.entry()
    }
}

/// `profiles` with `fetched` put under their ids, one after the other.
pub open spec fn with_fetched(profiles: Profiles, fetched: Profiles) -> Profiles
    decreases fetched.len(),
{
    if fetched.len() == 0 {
        profiles
    } else {
        config::with_profile(
            with_fetched(profiles, fetched.drop_last()),
            fetched.last().0,
            fetched.last().1,
        )
    }
}

/// The configuration after a login: the Hub and the token are set, the first of the user's
/// profiles is the default, and all of them are synced.
pub open spec fn logged_in(
    config: ConfigModel,
    hub_url: Seq<char>,
    token: Seq<char>,
    fetched: Profiles,
) -> ConfigModel {
    ConfigModel {
        hub_url: Some(hub_url),
        oauth_token: Some(token),
        default_profile: if fetched.len() > 0 {
            Some(fetched[0].0)
        } else {
            config.default_profile
        },
        profiles: with_fetched(config.profiles, fetched),
    }
}

/// Records a login in the configuration.
pub fn apply_login(
    config: &mut AppConfig,
    hub_url: String,
    token: String,
    fetched: Vec<FetchedProfile>,
)
    ensures
        final(config)@ == logged_in(old(config)@, hub_url@, token@, fetched.deep_view()),
{
    let first = if fetched.len() > 0 {
        Some(fetched[0].id.clone())
    } else {
        None
    };
    let ghost all = fetched.deep_view();
    let ghost before = config@.profiles;
    config.set_login(hub_url, token, first);
    let ghost set = config@;
    assert(all.take(0) == Profiles::empty());
    for profile in it: fetched
        invariant
            all.len() == it.seq().len(),
            forall|i: int| 0 <= i < all.len() ==> #[trigger] all[i] == it.seq()[i].entry(),
            set.profiles == before,
            config@ == (ConfigModel {
                profiles: with_fetched(before, all.take(it.index())),
                ..set
            }),
    {
        proof {
            assert(all.take(it.index() + 1).drop_last() == all.take(it.index()));
            assert(all.take(it.index() + 1).last() == profile.entry());
        }
        config.insert_profile(
            profile.id,
            ProfileConfig {
                name: profile.name,
                services: profile.services,
                synced_at: Some(profile.synced_at),
            },
        );
    }
    assert(all.take(all.len() as int) == all);
}

/// Every profile that a login fetched is found afterwards; of several with one id, it is
/// the last.
pub proof fn law_login_syncs_profiles(profiles: Profiles, fetched: Profiles, i: int)
    requires
        0 <= i < fetched.len(),
        forall|j: int| i < j < fetched.len() ==> (#[trigger] fetched[j]).0 != fetched[i].0,
    ensures
        config::profile_of(with_fetched(profiles, fetched), fetched[i].0) == Some(fetched[i].1),
    decreases fetched.len(),
{
    let front = fetched.drop_last();
    let last = fetched.last();
    let before = with_fetched(profiles, front);
    if i == fetched.len() - 1 {
        config::law_inserted_profile_is_found(before, last.0, last.1);
    } else {
        assert(fetched[fetched.len() - 1].0 != fetched[i].0);
        assert forall|j: int| i < j < front.len() implies (#[trigger] front[j]).0
            != front[i].0 by {
            assert(fetched[j].0 != fetched[i].0);
        }
        law_login_syncs_profiles(profiles, front, i);
        config::law_insert_keeps_other_profiles(before, last.0, last.1, fetched[i].0);
    }
}

/// A profile that a login did not fetch stays as it was.
pub proof fn law_login_keeps_other_profiles(profiles: Profiles, fetched: Profiles, id: Seq<char>)
    requires
        forall|j: int| 0 <= j < fetched.len() ==> (#[trigger] fetched[j]).0 != id,
    ensures
        config::profile_of(with_fetched(profiles, fetched), id) == config::profile_of(profiles, id),
    decreases fetched.len(),
{
    if fetched.len() > 0 {
        let front = fetched.drop_last();
        let last = fetched.last();
        assert(fetched[fetched.len() - 1].0 != id);
        assert forall|j: int| 0 <= j < front.len() implies (#[trigger] front[j]).0 != id by {
            assert(fetched[j].0 != id);
        }
        law_login_keeps_other_profiles(profiles, front, id);
        config::law_insert_keeps_other_profiles(
            with_fetched(profiles, front),
            last.0,
            last.1,
            id,
        );
    }
}

/// Some fetched entry is the last with its id.
proof fn lemma_last_with_id(fetched: Profiles, i: int) -> (k: int)
    requires
        0 <= i < fetched.len(),
    ensures
        i <= k < fetched.len(),
        fetched[k].0 == fetched[i].0,
        forall|j: int| k < j < fetched.len() ==> (#[trigger] fetched[j]).0 != fetched[k].0,
    decreases fetched.len() - i,
{
    if exists|j: int| i < j < fetched.len() && (#[trigger] fetched[j]).0 == fetched[i].0 {
        let j = choose|j: int| i < j < fetched.len() && (#[trigger] fetched[j]).0 == fetched[i].0;
        lemma_last_with_id(fetched, j)
    } else {
        i
    }
}

/// After a login with at least one profile, the server can be started without more ado:
/// the default profile resolves, it is found, and the Hub and the token are those of the
/// login.
pub proof fn law_login_makes_ready_to_serve(
    config: ConfigModel,
    hub_url: Seq<char>,
    token: Seq<char>,
    fetched: Profiles,
    no_token: Seq<char>,
)
    requires
        fetched.len() > 0,
    ensures
        ({
            let after = logged_in(config, hub_url, token, fetched);
            &&& resolved(after, None) == Ok::<Seq<char>, Seq<char>>(fetched[0].0)
            &&& config::profile_of(after.profiles, fetched[0].0) is Some
            &&& session(after, no_token) == Ok::<(Seq<char>, Seq<char>), Seq<char>>(
                (hub_url, token),
            )
        }),
{
    let k = lemma_last_with_id(fetched, 0);
    law_login_syncs_profiles(config.profiles, fetched, k);
}

/// A login keeps the ids of the profiles distinct.
pub proof fn law_login_keeps_ids_distinct(profiles: Profiles, fetched: Profiles)
    requires
        config::distinct_ids(profiles),
    ensures
        config::distinct_ids(with_fetched(profiles, fetched)),
    decreases fetched.len(),
{
    if fetched.len() > 0 {
        law_login_keeps_ids_distinct(profiles, fetched.drop_last());
        config::law_insert_keeps_ids_distinct(
            with_fetched(profiles, fetched.drop_last()),
            fetched.last().0,
            fetched.last().1,
        );
    }
}

/// The lines that report a login.
pub open spec fn login_lines(fetched: Profiles) -> Seq<Seq<char>> {
    seq!["Logged in. "@ + text::decimal(fetched.len()) + " profile(s) synced."@] + Seq::new(
        fetched.len(),
        |i: int| "  - "@ + fetched[i].1.name + " ("@ + fetched[i].0 + ")"@,
    )
}

/// Reports a login.
pub fn login_report(fetched: &Vec<FetchedProfile>) -> (r: Vec<String>)
    ensures
        r.deep_view() == login_lines(fetched.deep_view()),
{
    let ghost wanted = login_lines(fetched.deep_view());
    let mut head = "Logged in. ".to_string();
    head.append(text::decimal_text(fetched.len() as u64).as_str());
    head.append(" profile(s) synced.");
    let mut lines: Vec<String> = Vec::new();
    lines.push(head);
    assert(lines.deep_view() == wanted.take(1));
    for i in 0..fetched.len()
        invariant
            wanted == login_lines(fetched.deep_view()),
            lines.deep_view() == wanted.take(i + 1),
    {
        let ghost before = lines.deep_view();
        let mut line = "  - ".to_string();
        line.append(fetched[i].name.as_str());
        line.append(" (");
        line.append(fetched[i].id.as_str());
        line.append(")");
        proof {
            assert(fetched.deep_view()[i as int] == fetched@[i as int].entry());
            assert(wanted[i + 1] == line@);
        }
        lines.push(line);
        assert(lines.deep_view() == before.push(line@));
        assert(wanted.take(i + 2) == before.push(line@));
    }
    assert(wanted.take(fetched@.len() + 1int) == wanted);
    lines
}

/// The name under which a profile is known to the configuration.
pub fn known_name(config: &AppConfig, profile_id: &str) -> (r: Option<String>)
    ensures
        r.deep_view() == (match config::profile_of(config@.profiles, profile_id@) {
            Some(profile) => Some(profile.name),
            None => None,
        }),
{
    match config.get_profile(profile_id) {
        Some(profile) => Some(profile.name.clone()),
        None => None,
    }
}

/// The name of the profile `profile_id` among those of the Hub; its id where it has none.
pub open spec fn name_among(profiles: Seq<ProfileModel>, profile_id: Seq<char>) -> Seq<char>
    decreases profiles.len(),
{
    if profiles.len() == 0 {
        profile_id
    } else if profiles[0].id == profile_id {
        profiles[0].name
    } else {
        name_among(profiles.drop_first(), profile_id)
    }
}

/// Looks the name of a profile up among those of the Hub.
pub fn fetched_name(profiles: &Vec<ProfileResponse>, profile_id: &str) -> (r: String)
    ensures
        r@ == name_among(profiles.deep_view(), profile_id@),
{
    let ghost all = profiles.deep_view();
    assert(all.skip(0) == all);
    for i in 0..profiles.len()
        invariant
            all == profiles.deep_view(),
            name_among(all, profile_id@) == name_among(all.skip(i as int), profile_id@),
    {
        assert(all.skip(i as int)[0] == profiles@[i as int]@);
        if text::str_eq(profiles[i].id.as_str(), profile_id) {
            return profiles[i].name.clone();
        }
        assert(all.skip(i as int).drop_first() == all.skip(i + 1));
    }
    profile_id.to_string()
}

/// Which profiles a sync is about.
#[derive(Debug, PartialEq)]
pub enum SyncScope {
    /// All profiles of the user.
    All,
    /// The profile with this id.
    One(String),
}

/// The model of a [`SyncScope`].
pub enum SyncScopeModel {
    All,
    One(Seq<char>),
}

impl View for SyncScope {
    type V = SyncScopeModel;

    open spec fn view(&self) -> SyncScopeModel {
        match self {
            SyncScope::All => SyncScopeModel::All,
            SyncScope::One(id) => SyncScopeModel::One(id@),
        }
    }
}

impl DeepView for SyncScope {
    type V = SyncScopeModel;

    open spec fn deep_view(&self) -> SyncScopeModel {
        self.view()
    }
}

/// Which profiles a sync is about: the one that `name_or_id` stands for, or all where it
/// is omitted.
pub open spec fn scope_of(config: ConfigModel, name_or_id: Option<Seq<char>>) -> Result<
    SyncScopeModel,
    Seq<char>,
> {
    match name_or_id {
        None => Ok(SyncScopeModel::All),
        Some(wanted) => match resolved(config, Some(wanted)) {
            Ok(id) => Ok(SyncScopeModel::One(id)),
            Err(message) => Err(message),
        },
    }
}

/// Finds the profiles that a sync is about.
pub fn sync_scope(config: &AppConfig, name_or_id: Option<&str>) -> (r: Result<SyncScope, String>)
    ensures
        types::result_model(r) == scope_of(config@, name_or_id.deep_view()),
{
    if name_or_id.is_none() {
        return Ok(SyncScope::All);
    }
    match resolve_profile(config, name_or_id) {
        Ok(id) => Ok(SyncScope::One(id)),
        Err(message) => Err(message),
    }
}

/// The report of a sync that put `entry` into the configuration.
pub open spec fn sync_line(entry: (Seq<char>, ProfileConfigModel)) -> Seq<char> {
    "Synced profile '"@ + entry.1.name + "' ("@ + text::decimal(entry.1.services.len())
        + " services)"@
}

/// Records a sync of the profile `profile_id` in the configuration, and reports it.
pub fn apply_sync(
    config: &mut AppConfig,
    profile_id: &str,
    name: String,
    services: Vec<ServiceConfig>,
    synced_at: String,
) -> (r: String)
    ensures
        final(config)@ == (ConfigModel {
            profiles: config::with_profile(
                old(config)@.profiles,
                profile_id@,
                ProfileConfigModel {
                    name: name@,
                    services: services.deep_view(),
                    synced_at: Some(synced_at@),
                },
            ),
            ..old(config)@
        }),
        r@ == sync_line(
            (
                profile_id@,
                ProfileConfigModel {
                    name: name@,
                    services: services.deep_view(),
                    synced_at: Some(synced_at@),
                },
            ),
        ),
{
    let mut report = "Synced profile '".to_string();
    report.append(name.as_str());
    report.append("' (");
    report.append(text::decimal_text(services.len() as u64).as_str());
    report.append(" services)");
    config.insert_profile(
        profile_id.to_string(),
        ProfileConfig { name, services, synced_at: Some(synced_at) },
    );
    report
}

/// A fetched profile under the name that it has in `profiles`; under its own where it is
/// not among them.
pub open spec fn under_known_name(
    profiles: Profiles,
    fetched: (Seq<char>, ProfileConfigModel),
) -> (Seq<char>, ProfileConfigModel) {
    match config::profile_of(profiles, fetched.0) {
        Some(known) => (fetched.0, ProfileConfigModel { name: known.name, ..fetched.1 }),
        None => fetched,
    }
}

/// `profiles` after a sync of all of `fetched`, one after the other.
pub open spec fn synced(profiles: Profiles, fetched: Profiles) -> Profiles
    decreases fetched.len(),
{
    if fetched.len() == 0 {
        profiles
    } else {
        let before = synced(profiles, fetched.drop_last());
        config::with_profile(
            before,
            fetched.last().0,
            under_known_name(before, fetched.last()).1,
        )
    }
}

/// The lines that report a sync of all of `fetched`.
pub open spec fn sync_lines(profiles: Profiles, fetched: Profiles) -> Seq<Seq<char>> {
    Seq::new(
        fetched.len(),
        |i: int| sync_line(under_known_name(synced(profiles, fetched.take(i)), fetched[i])),
    )
}

/// Records a sync of all profiles in the configuration, and reports it.
pub fn apply_sync_all(config: &mut AppConfig, fetched: Vec<FetchedProfile>) -> (r: Vec<String>)
    ensures
        final(config)@ == (ConfigModel {
            profiles: synced(old(config)@.profiles, fetched.deep_view()),
            ..old(config)@
        }),
        r.deep_view() == sync_lines(old(config)@.profiles, fetched.deep_view()),
{
    let ghost all = fetched.deep_view();
    let ghost start = config@;
    let ghost wanted = sync_lines(start.profiles, all);
    let mut lines: Vec<String> = Vec::new();
    assert(all.take(0) == Profiles::empty());
    assert(lines.deep_view() == wanted.take(0));
    for profile in it: fetched
        invariant
            all.len() == it.seq().len(),
            forall|i: int| 0 <= i < all.len() ==> #[trigger] all[i] == it.seq()[i].entry(),
            wanted == sync_lines(start.profiles, all),
            lines.deep_view() == wanted.take(it.index()),
            config@ == (ConfigModel {
                profiles: synced(start.profiles, all.take(it.index())),
                ..start
            }),
    {
        let ghost k = it.index();
        let ghost before = lines.deep_view();
        proof {
            assert(all.take(k + 1).drop_last() == all.take(k));
            assert(all.take(k + 1).last() == profile.entry());
            assert(wanted[k] == sync_line(
                under_known_name(synced(start.profiles, all.take(k)), all[k]),
            ));
        }
        let name = match known_name(config, profile.id.as_str()) {
            Some(name) => name,
            None => profile.name,
        };
        let line = apply_sync(
            config,
            profile.id.as_str(),
            name,
            profile.services,
            profile.synced_at,
        );
        lines.push(line);
        assert(lines.deep_view() == before.push(line@));
        assert(wanted.take(k + 1) == before.push(wanted[k]));
    }
    assert(all.take(all.len() as int) == all);
    assert(wanted.take(all.len() as int) == wanted);
    lines
}

/// After a sync of all profiles, each of them is found with the services that were
/// fetched; of several with one id, with those of the last.
pub proof fn law_sync_brings_services(profiles: Profiles, fetched: Profiles, i: int)
    requires
        0 <= i < fetched.len(),
        forall|j: int| i < j < fetched.len() ==> (#[trigger] fetched[j]).0 != fetched[i].0,
    ensures
        config::profile_of(synced(profiles, fetched), fetched[i].0) matches Some(profile)
            && profile.services == fetched[i].1.services && profile.synced_at
            == fetched[i].1.synced_at,
    decreases fetched.len(),
{
    let front = fetched.drop_last();
    let last = fetched.last();
    let before = synced(profiles, front);
    let entry = under_known_name(before, last);
    if i == fetched.len() - 1 {
        config::law_inserted_profile_is_found(before, last.0, entry.1);
    } else {
        assert(fetched[fetched.len() - 1].0 != fetched[i].0);
        assert forall|j: int| i < j < front.len() implies (#[trigger] front[j]).0
            != front[i].0 by {
            assert(fetched[j].0 != fetched[i].0);
        }
        law_sync_brings_services(profiles, front, i);
        config::law_insert_keeps_other_profiles(before, last.0, entry.1, fetched[i].0);
    }
}

/// A sync keeps the names of the profiles that were known before, and forgets none of them.
pub proof fn law_sync_keeps_names(profiles: Profiles, fetched: Profiles, id: Seq<char>)
    requires
        config::profile_of(profiles, id) is Some,
    ensures
        config::profile_of(synced(profiles, fetched), id) matches Some(profile) && profile.name
            == config::profile_of(profiles, id)->0.name,
    decreases fetched.len(),
{
    if fetched.len() > 0 {
        let front = fetched.drop_last();
        let last = fetched.last();
        let before = synced(profiles, front);
        let entry = under_known_name(before, last);
        law_sync_keeps_names(profiles, front, id);
        if last.0 == id {
            config::law_inserted_profile_is_found(before, last.0, entry.1);
        } else {
            config::law_insert_keeps_other_profiles(before, last.0, entry.1, id);
        }
    }
}

/// A profile that a sync did not fetch stays as it was.
pub proof fn law_sync_keeps_other_profiles(profiles: Profiles, fetched: Profiles, id: Seq<char>)
    requires
        forall|j: int| 0 <= j < fetched.len() ==> (#[trigger] fetched[j]).0 != id,
    ensures
        config::profile_of(synced(profiles, fetched), id) == config::profile_of(profiles, id),
    decreases fetched.len(),
{
    if fetched.len() > 0 {
        let front = fetched.drop_last();
        let last = fetched.last();
        let before = synced(profiles, front);
        assert(fetched[fetched.len() - 1].0 != id);
        assert forall|j: int| 0 <= j < front.len() implies (#[trigger] front[j]).0 != id by {
            assert(fetched[j].0 != id);
        }
        law_sync_keeps_other_profiles(profiles, front, id);
        config::law_insert_keeps_other_profiles(
            before,
            last.0,
            under_known_name(before, last).1,
            id,
        );
    }
}

/// After a sync of all profiles, each of them can be chosen by its id.
pub proof fn law_sync_makes_profiles_known(config: ConfigModel, fetched: Profiles, i: int)
    requires
        0 <= i < fetched.len(),
    ensures
        resolved(
            ConfigModel { profiles: synced(config.profiles, fetched), ..config },
            Some(fetched[i].0),
        ) is Ok,
{
    let k = lemma_last_with_id(fetched, i);
    law_sync_brings_services(config.profiles, fetched, k);
}

/// A sync keeps the ids of the profiles distinct.
pub proof fn law_sync_keeps_ids_distinct(profiles: Profiles, fetched: Profiles)
    requires
        config::distinct_ids(profiles),
    ensures
        config::distinct_ids(synced(profiles, fetched)),
    decreases fetched.len(),
{
    if fetched.len() > 0 {
        let before = synced(profiles, fetched.drop_last());
        law_sync_keeps_ids_distinct(profiles, fetched.drop_last());
        config::law_insert_keeps_ids_distinct(
            before,
            fetched.last().0,
            under_known_name(before, fetched.last()).1,
        );
    }
}

/// The credential that a user typed, with the white space around it cut off; an error
/// where nothing is left.
pub fn typed_credential(profile_id: &str, domain: &str, header_name: &str, typed: &str) -> (r:
    Result<CredentialEntry, String>)
    ensures
        r is Ok <==> text::trimmed(typed@).len() > 0,
        r matches Ok(entry) ==> entry@ == (CredentialModel {
            profile_id: profile_id@,
            domain: domain@,
            header_name: header_name@,
            header_value: text::trimmed(typed@),
        }),
        r matches Err(message) ==> message@ == "credential value cannot be empty"@,
{
    let value = text::trim(typed);
    if value.is_empty() {
        Err("credential value cannot be empty".to_string())
    } else {
        Ok(
            CredentialEntry {
                profile_id: profile_id.to_string(),
                domain: domain.to_string(),
                header_name: header_name.to_string(),
                header_value: value.to_string(),
            },
        )
    }
}

/// The lines that list credentials. They show no credential's value.
pub open spec fn credential_lines(entries: Seq<CredentialModel>) -> Seq<Seq<char>> {
    if entries.len() == 0 {
        seq!["No credentials stored for this profile."@]
    } else {
        Seq::new(
            entries.len(),
            |i: int| "  "@ + entries[i].domain + " — header: "@ + entries[i].header_name,
        )
    }
}

/// Lists credentials for people to read.
pub fn credential_report(entries: &Vec<CredentialEntry>) -> (r: Vec<String>)
    ensures
        r.deep_view() == credential_lines(entries.deep_view()),
{
    let ghost wanted = credential_lines(entries.deep_view());
    let mut lines: Vec<String> = Vec::new();
    if entries.len() == 0 {
        lines.push("No credentials stored for this profile.".to_string());
        assert(lines.deep_view() == wanted);
        return lines;
    }
    assert(lines.deep_view() == wanted.take(0));
    for i in 0..entries.len()
        invariant
            entries@.len() > 0,
            wanted == credential_lines(entries.deep_view()),
            lines.deep_view() == wanted.take(i as int),
    {
        let ghost before = lines.deep_view();
        let mut line = "  ".to_string();
        line.append(entries[i].domain.as_str());
        line.append(" — header: ");
        line.append(entries[i].header_name.as_str());
        proof {
            assert(entries.deep_view()[i as int] == entries@[i as int]@);
            assert(wanted[i as int] == line@);
        }
        lines.push(line);
        assert(lines.deep_view() == before.push(line@));
        assert(wanted.take(i + 1) == before.push(line@));
    }
    assert(wanted.take(entries@.len() as int) == wanted);
    lines
}

/// Two lists of credentials that differ in their values alone read the same: a listing
/// gives no value away.
pub proof fn law_listing_hides_values(a: Seq<CredentialModel>, b: Seq<CredentialModel>)
    requires
        a.len() == b.len(),
        forall|i: int|
            0 <= i < a.len() ==> (#[trigger] a[i]).domain == b[i].domain && a[i].header_name
                == b[i].header_name,
    ensures
        credential_lines(a) == credential_lines(b),
{
    assert forall|i: int| 0 <= i < a.len() implies "  "@ + a[i].domain + " — header: "@
        + a[i].header_name == "  "@ + b[i].domain + " — header: "@ + b[i].header_name by {
        assert(a[i].domain == b[i].domain);
    }
    assert(credential_lines(a) =~= credential_lines(b));
}

/// A timestamp: the seconds since the Unix epoch, and the letter `Z`.
pub fn chrono_now(unix_secs: u64) -> (r: String)
    ensures
        r@ == text::decimal(unix_secs as nat) + "Z"@,
{
    let mut stamp = text::decimal_text(unix_secs);
    stamp.append("Z");
    stamp
}

/// A wanted profile is the first that has the wanted name; where none has it, the one with
/// the wanted id; where there is none either, an error that quotes what was wanted. Where
/// nothing is wanted, it is the default profile, if there is one.
pub proof fn law_name_comes_before_id(config: ConfigModel, wanted: Seq<char>)
    ensures
        forall|i: int|
            {
                &&& 0 <= i < config.profiles.len()
                &&& (#[trigger] config.profiles[i]).1.name == wanted
                &&& forall|j: int| 0 <= j < i ==> (#[trigger] config.profiles[j]).1.name != wanted
            } ==> resolved(config, Some(wanted)) == Ok::<Seq<char>, Seq<char>>(
                config.profiles[i].0,
            ),
        (forall|j: int|
            0 <= j < config.profiles.len() ==> (#[trigger] config.profiles[j]).1.name != wanted)
            ==> {
            &&& (exists|i: int|
                0 <= i < config.profiles.len() && (#[trigger] config.profiles[i]).0 == wanted)
                ==> resolved(config, Some(wanted)) == Ok::<Seq<char>, Seq<char>>(wanted)
            &&& (forall|i: int|
                0 <= i < config.profiles.len() ==> (#[trigger] config.profiles[i]).0 != wanted)
                ==> resolved(config, Some(wanted)) == Err::<Seq<char>, Seq<char>>(
                "profile '"@ + wanted + "' not found. Run `cv sync` first."@,
            )
        },
        config.default_profile matches Some(id) ==> resolved(config, None) == Ok::<
            Seq<char>,
            Seq<char>,
        >(id),
        config.default_profile is None ==> resolved(config, None) == Err::<Seq<char>, Seq<char>>(
            "no default profile set. Use --profile or run `cv login`"@,
        ),
{
    let profiles = config.profiles;
    lemma_place_of_name(profiles, wanted);
    config::lemma_place_of(profiles, wanted);
    let named = place_of_name(profiles, wanted);
    assert forall|i: int|
        {
            &&& 0 <= i < profiles.len()
            &&& (#[trigger] profiles[i]).1.name == wanted
            &&& forall|j: int| 0 <= j < i ==> (#[trigger] profiles[j]).1.name != wanted
        } implies resolved(config, Some(wanted)) == Ok::<Seq<char>, Seq<char>>(profiles[i].0) by {
        if named < i {
            assert(profiles[named].1.name != wanted);
        }
    }
}

/// A command has a client exactly where the user is logged in with an address and a token,
/// and then with just these; what is missing first is what the error tells.
pub proof fn law_session_needs_a_login(config: ConfigModel, no_token: Seq<char>, client: HubClient)
    ensures
        client_model(Ok(client)) == session(config, no_token) <==> config.hub_url == Some(
            client.hub_url@,
        ) && config.oauth_token == Some(client.oauth_token@),
        session(config, no_token) is Ok <==> config.hub_url is Some && config.oauth_token is Some,
        config.hub_url is None ==> session(config, no_token) == Err::<
            (Seq<char>, Seq<char>),
            Seq<char>,
        >("not logged in. Run `cv login` first."@),
        config.hub_url is Some && config.oauth_token is None ==> session(config, no_token)
            == Err::<(Seq<char>, Seq<char>), Seq<char>>(no_token),
{
}

/// What the configuration keeps of a fetched profile is all of it.
pub proof fn law_fetched_profile_is_kept_whole(fetched: FetchedProfile)
    ensures
        fetched.deep_view().0 == fetched.id@,
        fetched.deep_view().1.name == fetched.name@,
        fetched.deep_view().1.services == fetched.services.deep_view(),
        fetched.deep_view().1.synced_at == Some(fetched.synced_at@),
{
}

/// A login sets the address and the token, makes the first profile the default, and leaves
/// the default alone where there is no profile. Profiles are put in place one after the
/// other.
pub proof fn law_login_sets_the_session(
    config: ConfigModel,
    hub_url: Seq<char>,
    token: Seq<char>,
    fetched: Profiles,
    last: (Seq<char>, ProfileConfigModel),
)
    ensures
        logged_in(config, hub_url, token, fetched).hub_url == Some(hub_url),
        logged_in(config, hub_url, token, fetched).oauth_token == Some(token),
        fetched.len() > 0 ==> logged_in(config, hub_url, token, fetched).default_profile == Some(
            fetched[0].0,
        ),
        fetched.len() == 0 ==> logged_in(config, hub_url, token, fetched) == (ConfigModel {
            hub_url: Some(hub_url),
            oauth_token: Some(token),
            ..config
        }),
        logged_in(config, hub_url, token, fetched.push(last)).profiles == config::with_profile(
            logged_in(config, hub_url, token, fetched).profiles,
            last.0,
            last.1,
        ),
{
    assert(fetched.push(last).drop_last() == fetched);
}

/// The report of a login tells how many profiles were synced, and has one line for each of
/// them, in order, with its name and id.
pub proof fn law_login_report_names_every_profile(fetched: Profiles)
    ensures
        login_lines(fetched).len() == fetched.len() + 1,
        exists|count: Seq<char>|
            {
                &&& login_lines(fetched)[0] == "Logged in. "@ + count + " profile(s) synced."@
                &&& #[trigger] text::number(count) == fetched.len()
                &&& forall|i: int| 0 <= i < count.len() ==> '0' <= #[trigger] count[i] <= '9'
            },
        forall|i: int|
            0 <= i < fetched.len() ==> #[trigger] login_lines(fetched)[i + 1] == "  - "@
                + fetched[i].1.name + " ("@ + fetched[i].0 + ")"@,
{
    text::law_decimal_reads_back(fetched.len());
    assert(text::number(text::decimal(fetched.len())) == fetched.len());
}

/// The name of a profile among those of the Hub is that of the first with its id; where none
/// has it, the id stands for it.
pub proof fn law_name_is_that_of_the_id(profiles: Seq<ProfileModel>, profile_id: Seq<char>)
    ensures
        forall|i: int|
            {
                &&& 0 <= i < profiles.len()
                &&& (#[trigger] profiles[i]).id == profile_id
                &&& forall|j: int| 0 <= j < i ==> (#[trigger] profiles[j]).id != profile_id
            } ==> name_among(profiles, profile_id) == profiles[i].name,
        (forall|j: int| 0 <= j < profiles.len() ==> (#[trigger] profiles[j]).id != profile_id)
            ==> name_among(profiles, profile_id) == profile_id,
    decreases profiles.len(),
{
    if profiles.len() > 0 {
        let rest = profiles.drop_first();
        law_name_is_that_of_the_id(rest, profile_id);
        assert forall|j: int| 0 <= j < rest.len() implies #[trigger] rest[j] == profiles[j + 1] by {}
        assert forall|i: int|
            {
                &&& 0 <= i < profiles.len()
                &&& (#[trigger] profiles[i]).id == profile_id
                &&& forall|j: int| 0 <= j < i ==> (#[trigger] profiles[j]).id != profile_id
            } implies name_among(profiles, profile_id) == profiles[i].name by {
            if i > 0 {
                assert(profiles[0].id != profile_id);
                assert(rest[i - 1] == profiles[i]);
                assert forall|j: int| 0 <= j < i - 1 implies (#[trigger] rest[j]).id
                    != profile_id by {
                    assert(profiles[j + 1].id != profile_id);
                }
            }
        }
    }
}

/// A sync is about all profiles where none is wanted, and else about the one that is meant
/// by what is wanted; where nothing is meant by it, the error is the same.
pub proof fn law_sync_is_about_what_is_wanted(config: ConfigModel, wanted: Seq<char>)
    ensures
        scope_of(config, None) == Ok::<SyncScopeModel, Seq<char>>(SyncScopeModel::All),
        resolved(config, Some(wanted)) matches Ok(id) ==> scope_of(config, Some(wanted)) == Ok::<
            SyncScopeModel,
            Seq<char>,
        >(SyncScopeModel::One(id)),
        resolved(config, Some(wanted)) matches Err(message) ==> scope_of(config, Some(wanted))
            == Err::<SyncScopeModel, Seq<char>>(message),
{
}

/// A profile that was not known comes into the configuration as it was fetched, and one that
/// was known with what was fetched under the name that it had; each is put in place after
/// those before it, and reported with its name and the number of its services.
pub proof fn law_sync_of_one_more_profile(
    profiles: Profiles,
    fetched: Profiles,
    last: (Seq<char>, ProfileConfigModel),
)
    ensures
        ({
            let before = synced(profiles, fetched);
            let name = match config::profile_of(before, last.0) {
                Some(known) => known.name,
                None => last.1.name,
            };
            let lines = sync_lines(profiles, fetched.push(last));
            &&& synced(profiles, Seq::empty()) == profiles
            &&& synced(profiles, fetched.push(last)) == config::with_profile(
                before,
                last.0,
                ProfileConfigModel {
                    name,
                    services: last.1.services,
                    synced_at: last.1.synced_at,
                },
            )
            &&& sync_lines(profiles, Seq::empty()) == Seq::<Seq<char>>::empty()
            &&& lines.len() == fetched.len() + 1
            &&& lines.drop_last() == sync_lines(profiles, fetched)
            &&& exists|count: Seq<char>|
                {
                    &&& lines.last() == "Synced profile '"@ + name + "' ("@ + count
                        + " services)"@
                    &&& #[trigger] text::number(count) == last.1.services.len()
                    &&& forall|i: int| 0 <= i < count.len() ==> '0' <= #[trigger] count[i] <= '9'
                }
        }),
{
    let all = fetched.push(last);
    assert(all.drop_last() == fetched);
    assert(all.take(fetched.len() as int) == fetched);
    assert forall|i: int| 0 <= i < fetched.len() implies sync_lines(profiles, all)[i]
        == #[trigger] sync_lines(profiles, fetched)[i] by {
        assert(all.take(i) == fetched.take(i));
    }
    assert(sync_lines(profiles, all).drop_last() =~= sync_lines(profiles, fetched));
    text::law_decimal_reads_back(last.1.services.len());
    let count = text::decimal(last.1.services.len());
    assert(text::number(count) == last.1.services.len());
}

/// A listing of credentials has as many lines as there are credentials, and each names the
/// domain and the header of its credential; without any, it says so.
pub proof fn law_every_credential_is_listed(entries: Seq<CredentialModel>)
    ensures
        entries.len() == 0 ==> credential_lines(entries)
            == seq!["No credentials stored for this profile."@],
        entries.len() > 0 ==> credential_lines(entries).len() == entries.len(),
        forall|i: int|
            0 <= i < entries.len() ==> #[trigger] credential_lines(entries)[i] == "  "@
                + entries[i].domain + " — header: "@ + entries[i].header_name,
{
}

/// What a sync is about is modelled with the id of the profile in full.
pub proof fn law_scope_model_leaves_nothing_out(scope: SyncScope)
    ensures
        scope is All <==> scope.deep_view() is All,
        scope matches SyncScope::One(id) ==> scope.deep_view() == SyncScopeModel::One(id@),
{
}

} // verus!
