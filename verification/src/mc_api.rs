//! Mojang's web services: how requests are retried, and what is picked out
//! of the version manifest and the Java runtime list.
use vstd::prelude::*;
use crate::mc_types::{find_version, McJavaAll, McJavaRuntime, McVersion, McVersionInfo};
use crate::text::{assoc_find, assoc_index, chars_of, parse_u64, parse_u64_spec, push_str_chars, str_eq, str_views, string_of};

verus! {

/// Where the newer account services are.
pub const NEW_MC_SERVER: &'static str = "https://api.minecraftservices.com";

/// The version manifest.
pub const VERSION_MANIFEST_URL: &'static str = "https://piston-meta.mojang.com/mc/game/version_manifest_v2.json";

/// The list of Java runtimes by platform and component.
pub const JAVA_RUNTIME_ALL_URL: &'static str = "https://launchermeta.mojang.com/v1/products/java-runtime/2ec0cc96c44e5a76b9c8b7c39df7210883d12871/all.json";

/// Attempts made for one request.
pub const API_MAX_RETRIES: u32 = 4;

/// The wait after the first failed attempt, in milliseconds; it doubles
/// with each attempt.
pub const API_RETRY_BASE_MS: u64 = 1000;

/// Marks a client without a signed-in account.
pub struct Unauthenticated;

/// Marks a client that sends the account's token.
pub struct Authenticated;

/// How one attempt at a request ended.
pub enum ApiOutcome {
    /// Answered (not 429, not a server error): the answer is used.
    Answered,
    /// 429 Too Many Requests, with the text of its `Retry-After` header.
    TooManyRequests(Option<String>),
    /// A 5xx answer.
    ServerError,
    /// No answer at all.
    Failed,
}

/// `2` to the power `n`.
pub open spec fn pow2(n: nat) -> nat
    decreases n,
{
    if n == 0 {
        1
    } else {
        2 * pow2((n - 1) as nat)
    }
}

/// The wait before the next attempt after attempt `attempt` (from 0), or
/// none when the answer is used: the base delay doubled `attempt` times,
/// except that a 429's `Retry-After` in whole seconds counts instead (as
/// milliseconds, wrapping on overflow).
pub open spec fn retry_delay_spec(attempt: nat, outcome: ApiOutcome) -> Option<u64> {
    match outcome {
        ApiOutcome::Answered => None,
        ApiOutcome::TooManyRequests(h) => match h {
            Some(t) => match parse_u64_spec(t@) {
                Some(secs) => Some(((secs * 1000) % 0x1_0000_0000_0000_0000) as u64),
                None => Some((API_RETRY_BASE_MS * pow2(attempt)) as u64),
            },
            None => Some((API_RETRY_BASE_MS * pow2(attempt)) as u64),
        },
        _ => Some((API_RETRY_BASE_MS * pow2(attempt)) as u64),
    }
}

/// The base delay doubled `attempt` times.
fn backoff(attempt: u32) -> (r: u64)
    requires
        attempt < API_MAX_RETRIES,
    ensures
        r == API_RETRY_BASE_MS * pow2(attempt as nat),
{
    proof {
        reveal_with_fuel(pow2, 5);
    }
    let mut d: u64 = API_RETRY_BASE_MS;
    let mut k: u32 = 0;
    while k < attempt
        invariant
            k <= attempt < API_MAX_RETRIES,
            d == API_RETRY_BASE_MS * pow2(k as nat),
        decreases attempt - k,
    {
        proof {
            reveal_with_fuel(pow2, 5);
        }
        d = d * 2;
        k = k + 1;
    }
    d
}

/// The wait before the next attempt, or none when the answer is used.
pub fn retry_delay(attempt: u32, outcome: ApiOutcome) -> (r: Option<u64>)
    requires
        attempt < API_MAX_RETRIES,
    ensures
        r == retry_delay_spec(attempt as nat, outcome),
{
    match outcome {
        ApiOutcome::Answered => None,
        ApiOutcome::TooManyRequests(h) => match h {
            Some(t) => {
                let c = chars_of(t.as_str());
                match parse_u64(c.as_slice()) {
                    Some(secs) => Some(secs.wrapping_mul(1000)),
                    None => Some(backoff(attempt)),
                }
            },
            None => Some(backoff(attempt)),
        },
        _ => Some(backoff(attempt)),
    }
}

/// The manifest URL of the first build of a Java runtime component for a
/// platform (such as `mac-os-arm64`), if the list has one.
pub open spec fn runtime_manifest_url_spec(all: Seq<(String, Vec<(String, Vec<McJavaRuntime>)>)>, os_arch: Seq<char>, component: Seq<char>) -> Option<Seq<char>> {
    match assoc_find(all, os_arch) {
        Some(by_component) => match assoc_find(by_component@, component) {
            Some(entries) => if entries@.len() > 0 {
                Some(entries@[0].manifest.url@)
            } else {
                None
            },
            None => None,
        },
        None => None,
    }
}

/// The manifest URL of a Java runtime component for a platform.
pub fn runtime_manifest_url(all: &McJavaAll, os_arch: &str, component: &str) -> (r: Option<String>)
    ensures
        match r {
            Some(u) => runtime_manifest_url_spec(all@, os_arch@, component@) == Some(u@),
            None => runtime_manifest_url_spec(all@, os_arch@, component@) is None,
        },
{
    let oa = chars_of(os_arch);
    let i = match assoc_index(all, oa.as_slice()) {
        Some(i) => i,
        None => return None,
    };
    let by_component = &all[i].1;
    let cc = chars_of(component);
    let j = match assoc_index(by_component, cc.as_slice()) {
        Some(j) => j,
        None => return None,
    };
    let entries = &by_component[j].1;
    if entries.len() > 0 {
        Some(entries[0].manifest.url.clone())
    } else {
        None
    }
}

/// The error for a runtime missing from the list.
pub fn runtime_not_found_message(component: &str, os_arch: &str) -> (r: String)
    ensures
        r@ == "Java runtime '"@ + component@ + "' not found for platform '"@ + os_arch@ + "'"@,
{
    let mut v = chars_of("Java runtime '");
    push_str_chars(&mut v, component);
    push_str_chars(&mut v, "' not found for platform '");
    push_str_chars(&mut v, os_arch);
    push_str_chars(&mut v, "'");
    string_of(v.as_slice())
}

/// Where the account services look up a player's id by name.
pub fn player_uuid_url(username: &str) -> (r: String)
    ensures
        r@ == NEW_MC_SERVER@ + "/minecraft/profile/lookup/name/"@ + username@,
{
    let mut v = chars_of(NEW_MC_SERVER);
    push_str_chars(&mut v, "/minecraft/profile/lookup/name/");
    push_str_chars(&mut v, username);
    string_of(v.as_slice())
}

/// Where the account services look up a player's name by id.
pub fn player_name_url(uuid: &str) -> (r: String)
    ensures
        r@ == NEW_MC_SERVER@ + "/minecraft/profile/lookup/"@ + uuid@,
{
    let mut v = chars_of(NEW_MC_SERVER);
    push_str_chars(&mut v, "/minecraft/profile/lookup/");
    push_str_chars(&mut v, uuid);
    string_of(v.as_slice())
}

/// An endpoint of the signed-in account's services, by its path.
pub fn account_url(path: &str) -> (r: String)
    ensures
        r@ == NEW_MC_SERVER@ + path@,
{
    let mut v = chars_of(NEW_MC_SERVER);
    push_str_chars(&mut v, path);
    string_of(v.as_slice())
}

/// The path of the account's profile.
pub const PROFILE_PATH: &'static str = "/minecraft/profile";

/// The path skins are uploaded to.
pub const SKINS_PATH: &'static str = "/minecraft/profile/skins";

/// The path of the cape the account shows.
pub const ACTIVE_CAPE_PATH: &'static str = "/minecraft/profile/capes/active";

/// The path of the account's store entitlements.
pub const ENTITLEMENTS_PATH: &'static str = "/entitlements/mcstore";

/// The entitlement that stands for owning the game.
pub const GAME_ENTITLEMENT: &'static str = "game_minecraft";

/// An entitlement, by its name when it has a textual one, is the game.
pub open spec fn is_game_entitlement(item: Option<String>) -> bool {
    match item {
        Some(n) => n@ == GAME_ENTITLEMENT@,
        None => false,
    }
}

/// Whether the entitlements (each by its name, when it has a textual one)
/// include owning the game.
pub fn owns_game(items: &Vec<Option<String>>) -> (b: bool)
    ensures
        b == exists|i: int| 0 <= i < items@.len() && is_game_entitlement(#[trigger] items@[i]),
{
    let mut i: usize = 0;
    while i < items.len()
        invariant
            i <= items@.len(),
            forall|j: int| 0 <= j < i ==> !is_game_entitlement(#[trigger] items@[j]),
        decreases items.len() - i,
    {
        match &items[i] {
            Some(n) => {
                if str_eq(n.as_str(), GAME_ENTITLEMENT) {
                    assert(is_game_entitlement(items@[i as int]));
                    return true;
                }
            },
            None => {},
        }
        i = i + 1;
    }
    false
}

/// The latest release of the manifest, if it lists it.
pub fn latest_release(manifest: &McVersionInfo) -> (r: Option<usize>)
    ensures
        match r {
            Some(i) => i < manifest.versions@.len() && manifest.versions@[i as int].id@ == manifest.latest.release@
                && forall|j: int| 0 <= j < i ==> manifest.versions@[j].id@ != manifest.latest.release@,
            None => forall|j: int|
                0 <= j < manifest.versions@.len() ==> manifest.versions@[j].id@ != manifest.latest.release@,
        },
{
    find_version(&manifest.versions, manifest.latest.release.as_str())
}

/// The latest snapshot of the manifest, if it lists it.
pub fn latest_snapshot(manifest: &McVersionInfo) -> (r: Option<usize>)
    ensures
        match r {
            Some(i) => i < manifest.versions@.len() && manifest.versions@[i as int].id@ == manifest.latest.snapshot@
                && forall|j: int| 0 <= j < i ==> manifest.versions@[j].id@ != manifest.latest.snapshot@,
            None => forall|j: int|
                0 <= j < manifest.versions@.len() ==> manifest.versions@[j].id@ != manifest.latest.snapshot@,
        },
{
    find_version(&manifest.versions, manifest.latest.snapshot.as_str())
}

/// The ids of the releases (type `release`), in order.
pub open spec fn release_ids_spec(versions: Seq<McVersion>) -> Seq<Seq<char>>
    decreases versions.len(),
{
    if versions.len() == 0 {
        Seq::empty()
    } else {
        let rest = release_ids_spec(versions.drop_last());
        if versions.last().version_type@ == "release"@ {
            rest.push(versions.last().id@)
        } else {
            rest
        }
    }
}

/// The ids of the releases among the versions, in order.
pub fn release_ids(versions: &Vec<McVersion>) -> (r: Vec<String>)
    ensures
        str_views(r@) == release_ids_spec(versions@),
{
    let mut out: Vec<String> = Vec::new();
    let mut i: usize = 0;
    assert(versions@.take(0) =~= Seq::<McVersion>::empty());
    assert(str_views(out@) =~= Seq::<Seq<char>>::empty());
    while i < versions.len()
        invariant
            i <= versions@.len(),
            str_views(out@) == release_ids_spec(versions@.take(i as int)),
        decreases versions.len() - i,
    {
        let ghost t = versions@.take(i + 1);
        assert(t.drop_last() =~= versions@.take(i as int));
        assert(t.last() == versions@[i as int]);
        if str_eq(versions[i].version_type.as_str(), "release") {
            let ghost before = str_views(out@);
            out.push(versions[i].id.clone());
            assert(str_views(out@) =~= before.push(versions@[i as int].id@));
        }
        i = i + 1;
    }
    assert(versions@.take(i as int) =~= versions@);
    out
}

/// A signed-in session kept between launches.
#[derive(Debug, Clone)]
pub struct SessionData {
    microsoft_refresh_token: String,
    minecraft_access_token: String,
    mc_token_expires_at: i64,
}

impl View for SessionData {
    /// Refresh token, access token, expiry.
    type V = (Seq<char>, Seq<char>, i64);

    closed spec fn view(&self) -> (Seq<char>, Seq<char>, i64) {
        (self.microsoft_refresh_token@, self.minecraft_access_token@, self.mc_token_expires_at)
    }
}

impl SessionData {
    /// A session from its tokens and the game token's expiry (seconds since
    /// the epoch).
    pub fn new(microsoft_refresh_token: String, minecraft_access_token: String, mc_token_expires_at: i64) -> (r: SessionData)
        ensures
            r@ == (microsoft_refresh_token@, minecraft_access_token@, mc_token_expires_at),
    {
        SessionData { microsoft_refresh_token, minecraft_access_token, mc_token_expires_at }
    }

    /// The Microsoft refresh token.
    pub fn microsoft_refresh_token(&self) -> (r: &String)
        ensures
            r@ == self@.0,
    {
        &self.microsoft_refresh_token
    }

    /// The game's access token.
    pub fn minecraft_access_token(&self) -> (r: &String)
        ensures
            r@ == self@.1,
    {
        &self.minecraft_access_token
    }

    /// When the game's access token expires (seconds since the epoch).
    pub fn mc_token_expires_at(&self) -> (r: &i64)
        ensures
            *r == self@.2,
    {
        &self.mc_token_expires_at
    }

    /// Whether the game's access token is still good at `now` (it expires
    /// after its expiry second).
    pub fn token_valid_at(&self, now: i64) -> (b: bool)
        ensures
            b == (self@.2 >= now),
    {
        self.mc_token_expires_at >= now
    }
}

} // verus!
