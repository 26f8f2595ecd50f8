//! Snapshot of the plugins that an account has installed remotely.
//!
//! All marketplace queries of an account share one snapshot. It is fetched page by page, kept for a
//! while under the identity that it was fetched for, and dropped when it is invalidated.
use std::sync::Arc;

use vstd::prelude::*;
use vstd::string::*;

use crate::auth::{AccountAuth, AccountAuthView};
use crate::text::{
    clone_optional_text, clone_texts, optional_text, same_optional_text, same_text, texts,
    trim_trailing_slashes, without_trailing_slashes,
};

verus! {

/// How many plugins a page may hold.
pub const REMOTE_INSTALLED_PLUGIN_PAGE_LIMIT: u32 = 1000;

/// How long a snapshot is kept, in nanoseconds.
pub const REMOTE_INSTALLED_PLUGIN_SNAPSHOT_TTL: u64 = 30000000000;

/// How long a failure is kept, in nanoseconds.
pub const REMOTE_INSTALLED_PLUGIN_FAILURE_TTL: u64 = 1000000000;

/// Who a plugin is offered to.
#[derive(Clone, Copy, Debug, PartialEq, Eq, Structural)]
pub enum RemotePluginScope {
    Global,
    User,
    Workspace,
}

/// A published version of a plugin.
#[derive(Debug, Eq, PartialEq)]
pub struct RemotePluginRelease {
    pub version: String,
    pub display_name: String,
    pub description: String,
    pub bundle_download_url: Option<String>,
    /// The app manifest, as JSON text.
    pub app_manifest: Option<String>,
}

/// The value of a [`RemotePluginRelease`].
pub struct RemotePluginReleaseView {
    pub version: Seq<char>,
    pub display_name: Seq<char>,
    pub description: Seq<char>,
    pub bundle_download_url: Option<Seq<char>>,
    pub app_manifest: Option<Seq<char>>,
}

impl View for RemotePluginRelease {
    type V = RemotePluginReleaseView;

    open spec fn view(&self) -> RemotePluginReleaseView {
        RemotePluginReleaseView {
            version: self.version@,
            display_name: self.display_name@,
            description: self.description@,
            bundle_download_url: optional_text(self.bundle_download_url),
            app_manifest: optional_text(self.app_manifest),
        }
    }
}

impl Clone for RemotePluginRelease {
    fn clone(&self) -> (copy: Self)
        ensures
            copy@ == self@,
    {
        RemotePluginRelease {
            version: self.version.clone(),
            display_name: self.display_name.clone(),
            description: self.description.clone(),
            bundle_download_url: clone_optional_text(&self.bundle_download_url),
            app_manifest: clone_optional_text(&self.app_manifest),
        }
    }
}

/// A plugin of the remote catalog. Policies and states are kept in the catalog's own words.
#[derive(Debug, Eq, PartialEq)]
pub struct RemotePlugin {
    pub id: String,
    pub name: String,
    pub scope: RemotePluginScope,
    pub installation_policy: String,
    pub authentication_policy: String,
    pub status: String,
    pub discoverability: Option<String>,
    pub release: RemotePluginRelease,
}

/// The value of a [`RemotePlugin`].
pub struct RemotePluginView {
    pub id: Seq<char>,
    pub name: Seq<char>,
    pub scope: RemotePluginScope,
    pub installation_policy: Seq<char>,
    pub authentication_policy: Seq<char>,
    pub status: Seq<char>,
    pub discoverability: Option<Seq<char>>,
    pub release: RemotePluginReleaseView,
}

impl View for RemotePlugin {
    type V = RemotePluginView;

    open spec fn view(&self) -> RemotePluginView {
        RemotePluginView {
            id: self.id@,
            name: self.name@,
            scope: self.scope,
            installation_policy: self.installation_policy@,
            authentication_policy: self.authentication_policy@,
            status: self.status@,
            discoverability: optional_text(self.discoverability),
            release: self.release@,
        }
    }
}

impl Clone for RemotePlugin {
    fn clone(&self) -> (copy: Self)
        ensures
            copy@ == self@,
    {
        RemotePlugin {
            id: self.id.clone(),
            name: self.name.clone(),
            scope: self.scope,
            installation_policy: self.installation_policy.clone(),
            authentication_policy: self.authentication_policy.clone(),
            status: self.status.clone(),
            discoverability: clone_optional_text(&self.discoverability),
            release: self.release.clone(),
        }
    }
}

/// An installed plugin with the account's settings for it.
#[derive(Debug, Eq, PartialEq)]
pub struct RemotePluginInstalledItem {
    pub plugin: RemotePlugin,
    pub enabled: bool,
    pub disabled_skill_names: Vec<String>,
    /// The whole item as the catalog sent it, as JSON text, for what is not read here.
    pub raw: String,
}

/// The value of a [`RemotePluginInstalledItem`].
pub struct RemotePluginInstalledItemView {
    pub plugin: RemotePluginView,
    pub enabled: bool,
    pub disabled_skill_names: Seq<Seq<char>>,
    pub raw: Seq<char>,
}

impl View for RemotePluginInstalledItem {
    type V = RemotePluginInstalledItemView;

    open spec fn view(&self) -> RemotePluginInstalledItemView {
        RemotePluginInstalledItemView {
            plugin: self.plugin@,
            enabled: self.enabled,
            disabled_skill_names: texts(self.disabled_skill_names@),
            raw: self.raw@,
        }
    }
}

impl Clone for RemotePluginInstalledItem {
    fn clone(&self) -> (copy: Self)
        ensures
            copy@ == self@,
    {
        RemotePluginInstalledItem {
            plugin: self.plugin.clone(),
            enabled: self.enabled,
            disabled_skill_names: clone_texts(&self.disabled_skill_names),
            raw: self.raw.clone(),
        }
    }
}

/// The values of a list of plugins.
pub open spec fn items(plugins: Seq<RemotePluginInstalledItem>) -> Seq<
    RemotePluginInstalledItemView,
> {
    plugins.map_values(|plugin: RemotePluginInstalledItem| plugin@)
}

/// Why there is no snapshot.
#[derive(Debug, Eq, PartialEq)]
pub enum RemotePluginCatalogError {
    /// The catalog answered something unexpected, or not for the present state.
    UnexpectedResponse(String),
    /// A request failed.
    Request(String),
}

/// The value of a [`RemotePluginCatalogError`].
pub enum RemotePluginCatalogErrorView {
    UnexpectedResponse(Seq<char>),
    Request(Seq<char>),
}

impl View for RemotePluginCatalogError {
    type V = RemotePluginCatalogErrorView;

    open spec fn view(&self) -> RemotePluginCatalogErrorView {
        match *self {
            RemotePluginCatalogError::UnexpectedResponse(
                message,
            ) => RemotePluginCatalogErrorView::UnexpectedResponse(message@),
            RemotePluginCatalogError::Request(message) => RemotePluginCatalogErrorView::Request(
                message@,
            ),
        }
    }
}

impl RemotePluginCatalogErrorView {
    /// The text of the error.
    pub open spec fn message_text(self) -> Seq<char> {
        match self {
            RemotePluginCatalogErrorView::UnexpectedResponse(message) => message,
            RemotePluginCatalogErrorView::Request(message) => message,
        }
    }
}

impl RemotePluginCatalogError {
    /// The text of the error.
    pub fn message(&self) -> (message: String)
        ensures
            message@ == self@.message_text(),
    {
        match self {
            RemotePluginCatalogError::UnexpectedResponse(message)
            | RemotePluginCatalogError::Request(message) => message.clone(),
        }
    }
}

/// The error of a caller that was waiting for a snapshot when it was invalidated.
pub open spec fn invalidated() -> RemotePluginCatalogErrorView {
    RemotePluginCatalogErrorView::UnexpectedResponse(
        "remote installed plugin snapshot was invalidated while loading"@,
    )
}

/// The error of a caller that was waiting for a snapshot when it was invalidated.
pub fn snapshot_invalidated_error() -> (error: RemotePluginCatalogError)
    ensures
        error@ == invalidated(),
{
    RemotePluginCatalogError::UnexpectedResponse(
        "remote installed plugin snapshot was invalidated while loading".to_owned(),
    )
}

/// The error of a caller that could not queue for a fetch.
pub open spec fn gate_closed() -> RemotePluginCatalogErrorView {
    RemotePluginCatalogErrorView::UnexpectedResponse(
        "remote installed plugin snapshot fetch gate was closed"@,
    )
}

/// The error of a caller that could not queue for a fetch.
pub fn fetch_gate_closed_error() -> (error: RemotePluginCatalogError)
    ensures
        error@ == gate_closed(),
{
    RemotePluginCatalogError::UnexpectedResponse(
        "remote installed plugin snapshot fetch gate was closed".to_owned(),
    )
}

/// Where the plugin service is.
#[derive(Debug, Eq, PartialEq)]
pub struct RemotePluginServiceConfig {
    pub chatgpt_base_url: String,
}

/// Whom a snapshot was fetched for, and from where.
#[derive(Debug, PartialEq, Eq)]
pub struct InstalledSnapshotCacheKey {
    pub chatgpt_base_url: String,
    /// The workspace or account that is active for the request.
    pub account_id: Option<String>,
    pub chatgpt_user_id: Option<String>,
    pub plan_type: Option<String>,
    pub auth_mode: String,
    pub product_sku: String,
}

/// The value of an [`InstalledSnapshotCacheKey`].
pub struct InstalledSnapshotCacheKeyView {
    pub chatgpt_base_url: Seq<char>,
    pub account_id: Option<Seq<char>>,
    pub chatgpt_user_id: Option<Seq<char>>,
    pub plan_type: Option<Seq<char>>,
    pub auth_mode: Seq<char>,
    pub product_sku: Seq<char>,
}

impl View for InstalledSnapshotCacheKey {
    type V = InstalledSnapshotCacheKeyView;

    open spec fn view(&self) -> InstalledSnapshotCacheKeyView {
        InstalledSnapshotCacheKeyView {
            chatgpt_base_url: self.chatgpt_base_url@,
            account_id: optional_text(self.account_id),
            chatgpt_user_id: optional_text(self.chatgpt_user_id),
            plan_type: optional_text(self.plan_type),
            auth_mode: self.auth_mode@,
            product_sku: self.product_sku@,
        }
    }
}

/// The key for a service and an account.
pub open spec fn snapshot_key(
    chatgpt_base_url: Seq<char>,
    auth: AccountAuthView,
) -> InstalledSnapshotCacheKeyView {
    InstalledSnapshotCacheKeyView {
        chatgpt_base_url: without_trailing_slashes(chatgpt_base_url),
        account_id: auth.account_id,
        chatgpt_user_id: auth.chatgpt_user_id,
        plan_type: auth.plan_type,
        auth_mode: auth.auth_mode,
        product_sku: "codex"@,
    }
}

impl Clone for InstalledSnapshotCacheKey {
    fn clone(&self) -> (copy: Self)
        ensures
            copy@ == self@,
    {
        InstalledSnapshotCacheKey {
            chatgpt_base_url: self.chatgpt_base_url.clone(),
            account_id: clone_optional_text(&self.account_id),
            chatgpt_user_id: clone_optional_text(&self.chatgpt_user_id),
            plan_type: clone_optional_text(&self.plan_type),
            auth_mode: self.auth_mode.clone(),
            product_sku: self.product_sku.clone(),
        }
    }
}

impl InstalledSnapshotCacheKey {
    /// The key for a service and an account.
    pub fn new(config: &RemotePluginServiceConfig, auth: &AccountAuth) -> (key: Self)
        ensures
            key@ == snapshot_key(config.chatgpt_base_url@, auth@),
    {
        InstalledSnapshotCacheKey {
            chatgpt_base_url: trim_trailing_slashes(config.chatgpt_base_url.as_str()),
            account_id: clone_optional_text(&auth.account_id),
            chatgpt_user_id: clone_optional_text(&auth.chatgpt_user_id),
            plan_type: clone_optional_text(&auth.plan_type),
            auth_mode: auth.auth_mode.clone(),
            product_sku: "codex".to_owned(),
        }
    }

    /// Whether two keys are the same.
    pub fn same(&self, other: &InstalledSnapshotCacheKey) -> (same: bool)
        ensures
            same == (self@ == other@),
    {
        same_text(self.chatgpt_base_url.as_str(), other.chatgpt_base_url.as_str())
            && same_optional_text(&self.account_id, &other.account_id) && same_optional_text(
            &self.chatgpt_user_id,
            &other.chatgpt_user_id,
        ) && same_optional_text(&self.plan_type, &other.plan_type) && same_text(
            self.auth_mode.as_str(),
            other.auth_mode.as_str(),
        ) && same_text(self.product_sku.as_str(), other.product_sku.as_str())
    }
}

enum CachedInstalledSnapshotValue {
    Plugins(Arc<Vec<RemotePluginInstalledItem>>),
    Error(String),
}

struct CachedInstalledSnapshot {
    key: InstalledSnapshotCacheKey,
    value: CachedInstalledSnapshotValue,
    expires_at: u64,
}

/// What a cache holds: plugins, or what a failed fetch said.
pub enum CachedValue {
    Plugins(Seq<RemotePluginInstalledItemView>),
    Error(Seq<char>),
}

/// A value with the key that it was fetched for and the time from which it no longer counts.
pub struct CachedView {
    pub key: InstalledSnapshotCacheKeyView,
    pub value: CachedValue,
    pub expires_at: u64,
}

impl CachedInstalledSnapshot {
    closed spec fn value(self) -> CachedView {
        CachedView {
            key: self.key@,
            value: match self.value {
                CachedInstalledSnapshotValue::Plugins(plugins) => CachedValue::Plugins(
                    items(plugins@),
                ),
                CachedInstalledSnapshotValue::Error(message) => CachedValue::Error(message@),
            },
            expires_at: self.expires_at,
        }
    }
}

/// What a caller that asks for a snapshot gets.
pub type SnapshotResult = Result<Arc<Vec<RemotePluginInstalledItem>>, RemotePluginCatalogError>;

/// The value of a [`SnapshotResult`].
pub open spec fn snapshot_value(result: SnapshotResult) -> Result<
    Seq<RemotePluginInstalledItemView>,
    RemotePluginCatalogErrorView,
> {
    match result {
        Ok(plugins) => Ok(items(plugins@)),
        Err(error) => Err(error@),
    }
}

/// The value of an optional [`SnapshotResult`].
pub open spec fn optional_snapshot_value(result: Option<SnapshotResult>) -> Option<
    Result<Seq<RemotePluginInstalledItemView>, RemotePluginCatalogErrorView>,
> {
    match result {
        Some(result) => Some(snapshot_value(result)),
        None => None,
    }
}

/// What a cached value means to a caller. A failure loses its kind: callers that share it learn what
/// it said.
pub open spec fn shared_result(value: CachedValue) -> Result<
    Seq<RemotePluginInstalledItemView>,
    RemotePluginCatalogErrorView,
> {
    match value {
        CachedValue::Plugins(plugins) => Ok(plugins),
        CachedValue::Error(message) => Err(
            RemotePluginCatalogErrorView::UnexpectedResponse(message),
        ),
    }
}

/// Snapshots shared by the remote marketplace queries, keyed by identity.
///
/// Every invalidation starts a new generation. Callers remember the generation in which they started;
/// what they waited for counts only if it is still the present one.
pub struct RemoteInstalledPluginSnapshotCache {
    cached: Option<CachedInstalledSnapshot>,
    generation: u64,
}

/// The value of a [`RemoteInstalledPluginSnapshotCache`].
pub struct SnapshotCacheView {
    pub cached: Option<CachedView>,
    pub generation: u64,
}

impl View for RemoteInstalledPluginSnapshotCache {
    type V = SnapshotCacheView;

    closed spec fn view(&self) -> SnapshotCacheView {
        SnapshotCacheView {
            cached: match self.cached {
                Some(cached) => Some(cached.value()),
                None => None,
            },
            generation: self.generation,
        }
    }
}

/// What is cached for a key at a point in time.
pub open spec fn cached_result(
    cache: SnapshotCacheView,
    key: InstalledSnapshotCacheKeyView,
    now: u64,
) -> Option<Result<Seq<RemotePluginInstalledItemView>, RemotePluginCatalogErrorView>> {
    match cache.cached {
        Some(cached) if cached.key == key && now < cached.expires_at => Some(
            shared_result(cached.value),
        ),
        _ => None,
    }
}

/// What a caller gets from the cache without a fetch.
pub open spec fn lookup_result(
    cache: SnapshotCacheView,
    key: InstalledSnapshotCacheKeyView,
    generation: u64,
    now: u64,
) -> Option<Result<Seq<RemotePluginInstalledItemView>, RemotePluginCatalogErrorView>> {
    match cached_result(cache, key, now) {
        Some(result) => if generation == cache.generation {
            Some(result)
        } else {
            Some(Err(invalidated()))
        },
        None => None,
    }
}

/// What a caller gets from the cache once it is its turn to fetch; nothing where it has to fetch.
pub open spec fn turn_result(
    cache: SnapshotCacheView,
    key: InstalledSnapshotCacheKeyView,
    generation: u64,
    now: u64,
) -> Option<Result<Seq<RemotePluginInstalledItemView>, RemotePluginCatalogErrorView>> {
    if generation != cache.generation {
        Some(Err(invalidated()))
    } else {
        cached_result(cache, key, now)
    }
}

/// What a fetch came to.
pub enum FetchedView {
    Plugins(Seq<RemotePluginInstalledItemView>),
    Failure(RemotePluginCatalogErrorView),
}

/// The value of a fetch's result.
pub open spec fn fetched_value(
    result: Result<Vec<RemotePluginInstalledItem>, RemotePluginCatalogError>,
) -> FetchedView {
    match result {
        Ok(plugins) => FetchedView::Plugins(items(plugins@)),
        Err(error) => FetchedView::Failure(error@),
    }
}

/// How long the result of a fetch is kept.
pub open spec fn time_to_live(fetched: FetchedView) -> u64 {
    match fetched {
        FetchedView::Plugins(_) => REMOTE_INSTALLED_PLUGIN_SNAPSHOT_TTL,
        FetchedView::Failure(_) => REMOTE_INSTALLED_PLUGIN_FAILURE_TTL,
    }
}

/// The cache after a fetch that started in the given generation.
pub open spec fn cache_after_fetch(
    cache: SnapshotCacheView,
    key: InstalledSnapshotCacheKeyView,
    generation: u64,
    fetched: FetchedView,
    now: u64,
) -> SnapshotCacheView {
    if generation != cache.generation {
        cache
    } else {
        SnapshotCacheView {
            cached: Some(
                CachedView {
                    key,
                    value: match fetched {
                        FetchedView::Plugins(plugins) => CachedValue::Plugins(plugins),
                        FetchedView::Failure(error) => CachedValue::Error(error.message_text()),
                    },
                    expires_at: (now + time_to_live(fetched)) as u64,
                },
            ),
            generation: cache.generation,
        }
    }
}

/// What the caller that fetched gets.
pub open spec fn fetch_result(
    cache: SnapshotCacheView,
    generation: u64,
    fetched: FetchedView,
) -> Result<Seq<RemotePluginInstalledItemView>, RemotePluginCatalogErrorView> {
    if generation != cache.generation {
        Err(invalidated())
    } else {
        match fetched {
            FetchedView::Plugins(plugins) => Ok(plugins),
            FetchedView::Failure(error) => Err(error),
        }
    }
}

/// The cache after an invalidation.
pub open spec fn cache_after_invalidation(cache: SnapshotCacheView) -> SnapshotCacheView {
    SnapshotCacheView {
        cached: None,
        generation: if cache.generation == u64::MAX {
            0
        } else {
            (cache.generation + 1) as u64
        },
    }
}

/// Whether there is anything in the cache for an invalidation to drop.
pub open spec fn holds_something(cache: SnapshotCacheView) -> bool {
    cache.cached is Some
}

impl Default for RemoteInstalledPluginSnapshotCache {
    /// An empty cache.
    fn default() -> (cache: Self)
        ensures
            cache@.cached is None,
            cache@.generation == 0,
    {
        RemoteInstalledPluginSnapshotCache { cached: None, generation: 0 }
    }
}

impl RemoteInstalledPluginSnapshotCache {
    /// The present generation.
    pub fn generation(&self) -> (generation: u64)
        ensures
            generation == self@.generation,
    {
        self.generation
    }

    /// Drops what is cached and starts a new generation. Says whether anything was cached.
    pub fn invalidate(&mut self) -> (dropped: bool)
        ensures
            final(self)@ == cache_after_invalidation(old(self)@),
            dropped == (old(self)@.cached is Some),
            dropped == holds_something(old(self)@),
    {
        self.generation = self.generation.wrapping_add(1);
        let dropped = self.cached.is_some();
        self.cached = None;
        dropped
    }

    /// What is cached for a key. Callers share the cached list itself; the contract tells its contents,
    /// not its place in memory.
    pub fn cached_result_for_key(&self, key: &InstalledSnapshotCacheKey, now: u64) -> (result:
        Option<SnapshotResult>)
        ensures
            optional_snapshot_value(result) == cached_result(self@, key@, now),
    {
        match &self.cached {
            Some(cached) => {
                if cached.key.same(key) && now < cached.expires_at {
                    Some(
                        match &cached.value {
                            CachedInstalledSnapshotValue::Plugins(plugins) => Ok(
                                Arc::clone(plugins),
                            ),
                            CachedInstalledSnapshotValue::Error(message) => Err(
                                RemotePluginCatalogError::UnexpectedResponse(message.clone()),
                            ),
                        },
                    )
                } else {
                    None
                }
            },
            None => None,
        }
    }

    /// Asks the cache on behalf of a caller that started in the given generation. Without a result
    /// the caller queues for its turn to fetch.
    pub fn lookup(&self, key: &InstalledSnapshotCacheKey, generation: u64, now: u64) -> (result:
        Option<SnapshotResult>)
        ensures
            optional_snapshot_value(result) == lookup_result(self@, key@, generation, now),
    {
        match self.cached_result_for_key(key, now) {
            Some(result) => {
                if generation == self.generation {
                    Some(result)
                } else {
                    Some(Err(snapshot_invalidated_error()))
                }
            },
            None => None,
        }
    }

    /// Asks the cache again once it is the caller's turn to fetch. Without a result the caller
    /// fetches.
    pub fn turn_reached(&self, key: &InstalledSnapshotCacheKey, generation: u64, now: u64) -> (result:
        Option<SnapshotResult>)
        ensures
            optional_snapshot_value(result) == turn_result(self@, key@, generation, now),
    {
        if generation != self.generation {
            return Some(Err(snapshot_invalidated_error()));
        }
        self.lookup(key, generation, now)
    }

    /// Takes what a fetch came to, and gives the caller that fetched its result.
    pub fn fetched(
        &mut self,
        key: InstalledSnapshotCacheKey,
        generation: u64,
        result: Result<Vec<RemotePluginInstalledItem>, RemotePluginCatalogError>,
        now: u64,
    ) -> (outcome: SnapshotResult)
        requires
            generation == old(self)@.generation ==> now + time_to_live(fetched_value(result))
                <= u64::MAX,
        ensures
            final(self)@ == cache_after_fetch(
                old(self)@,
                key@,
                generation,
                fetched_value(result),
                now,
            ),
            snapshot_value(outcome) == fetch_result(old(self)@, generation, fetched_value(result)),
    {
        if generation != self.generation {
            return Err(snapshot_invalidated_error());
        }
        match result {
            Ok(plugins) => {
                let plugins = Arc::new(plugins);
                self.cached = Some(
                    CachedInstalledSnapshot {
                        key,
                        value: CachedInstalledSnapshotValue::Plugins(Arc::clone(&plugins)),
                        expires_at: now + REMOTE_INSTALLED_PLUGIN_SNAPSHOT_TTL,
                    },
                );
                Ok(plugins)
            },
            Err(error) => {
                self.cached = Some(
                    CachedInstalledSnapshot {
                        key,
                        value: CachedInstalledSnapshotValue::Error(error.message()),
                        expires_at: now + REMOTE_INSTALLED_PLUGIN_FAILURE_TTL,
                    },
                );
                Err(error)
            },
        }
    }
}

/// The plugins of a scope, in the order of the snapshot.
pub open spec fn in_scope(
    plugins: Seq<RemotePluginInstalledItemView>,
    scope: RemotePluginScope,
) -> Seq<RemotePluginInstalledItemView> {
    plugins.filter(|plugin: RemotePluginInstalledItemView| plugin.plugin.scope == scope)
}

/// The plugins of a scope, out of what a caller got.
pub open spec fn scope_result(
    snapshot: Result<Seq<RemotePluginInstalledItemView>, RemotePluginCatalogErrorView>,
    scope: RemotePluginScope,
) -> Result<Seq<RemotePluginInstalledItemView>, RemotePluginCatalogErrorView> {
    match snapshot {
        Ok(plugins) => Ok(in_scope(plugins, scope)),
        Err(error) => Err(error),
    }
}

/// The plugins of a scope, out of what a caller got.
pub fn installed_plugins_for_scope(snapshot: SnapshotResult, scope: RemotePluginScope) -> (plugins:
    Result<Vec<RemotePluginInstalledItem>, RemotePluginCatalogError>)
    ensures
        match plugins {
            Ok(plugins) => Ok(items(plugins@)),
            Err(error) => Err(error@),
        } == scope_result(snapshot_value(snapshot), scope),
        plugins is Ok <==> snapshot is Ok,
        plugins matches Ok(listed) ==> forall|i: int|
            0 <= i < listed@.len() ==> (#[trigger] listed@[i]).plugin.scope == scope,
        plugins matches Ok(listed) ==> (snapshot matches Ok(all) ==> forall|k: int|
            0 <= k < all@.len() && (#[trigger] all@[k]).plugin.scope == scope ==> items(
                listed@,
            ).contains(all@[k]@)),
{
    let all = match snapshot {
        Ok(all) => all,
        Err(error) => {
            return Err(error);
        },
    };
    let mut plugins: Vec<RemotePluginInstalledItem> = Vec::new();
    let mut i: usize = 0;
    let ghost whole = items(all@);
    proof {
        reveal(Seq::filter);
        assert(items(plugins@) =~= in_scope(whole.take(0), scope));
    }
    while i < all.len()
        invariant
            i <= all@.len(),
            whole == items(all@),
            items(plugins@) == in_scope(whole.take(i as int), scope),
        decreases all@.len() - i,
    {
        let ghost before = items(plugins@);
        proof {
            reveal(Seq::filter);
            assert(whole.take(i + 1).drop_last() =~= whole.take(i as int));
            assert(whole.take(i + 1).last() == all@[i as int]@);
        }
        if all[i].plugin.scope == scope {
            plugins.push(all[i].clone());
            proof {
                assert(items(plugins@) =~= before.push(all@[i as int]@));
            }
        }
        i += 1;
    }
    proof {
        assert(whole.take(i as int) =~= whole);
        let places = lemma_scope_lists_hold_exactly_their_plugins(whole, scope, invalidated());
        assert forall|j: int| 0 <= j < plugins@.len() implies (#[trigger] plugins@[j]).plugin.scope
            == scope by {
            assert(items(plugins@)[j].plugin.scope == scope);
        }
        assert forall|k: int|
            0 <= k < all@.len() && (#[trigger] all@[k]).plugin.scope == scope implies items(
            plugins@,
        ).contains(all@[k]@) by {
            assert(whole[k].plugin.scope == scope);
            let j = choose|j: int| 0 <= j < places.len() && places[j] == k;
            assert(items(plugins@)[j] == whole[places[j]]);
        }
    }
    Ok(plugins)
}

/// A request for a page of installed plugins of all scopes.
#[derive(Debug, Eq, PartialEq)]
pub struct InstalledPageRequest {
    pub page_token: Option<String>,
    pub include_download_urls: bool,
    pub limit: u32,
}

/// A page of installed plugins.
#[derive(Debug, Eq, PartialEq)]
pub struct InstalledPage {
    pub plugins: Vec<RemotePluginInstalledItem>,
    pub next_page_token: Option<String>,
}

/// The value of an [`InstalledPage`].
pub struct InstalledPageView {
    pub plugins: Seq<RemotePluginInstalledItemView>,
    pub next_page_token: Option<Seq<char>>,
}

impl View for InstalledPage {
    type V = InstalledPageView;

    open spec fn view(&self) -> InstalledPageView {
        InstalledPageView {
            plugins: items(self.plugins@),
            next_page_token: optional_text(self.next_page_token),
        }
    }
}

/// A fetch between two pages: the plugins so far, and the tokens of the pages after the first one.
pub struct InstalledPluginsFetch {
    plugins: Vec<RemotePluginInstalledItem>,
    page_tokens: Vec<String>,
}

/// The value of an [`InstalledPluginsFetch`].
pub struct FetchProgress {
    pub plugins: Seq<RemotePluginInstalledItemView>,
    pub page_tokens: Seq<Seq<char>>,
}

impl View for InstalledPluginsFetch {
    type V = FetchProgress;

    closed spec fn view(&self) -> FetchProgress {
        FetchProgress { plugins: items(self.plugins@), page_tokens: texts(self.page_tokens@) }
    }
}

/// How a fetch goes on after a page.
pub enum FetchStep {
    /// Ask for the next page.
    Continue(InstalledPluginsFetch),
    /// That was the last page.
    Done(Vec<RemotePluginInstalledItem>),
    Failed(RemotePluginCatalogError),
}

/// The value of a [`FetchStep`].
pub enum FetchStepView {
    Continue(FetchProgress),
    Done(Seq<RemotePluginInstalledItemView>),
    Failed(RemotePluginCatalogErrorView),
}

impl View for FetchStep {
    type V = FetchStepView;

    open spec fn view(&self) -> FetchStepView {
        match *self {
            FetchStep::Continue(fetch) => FetchStepView::Continue(fetch@),
            FetchStep::Done(plugins) => FetchStepView::Done(items(plugins@)),
            FetchStep::Failed(error) => FetchStepView::Failed(error@),
        }
    }
}

/// The error of a fetch whose pages do not lead on.
pub open spec fn bad_page_token() -> RemotePluginCatalogErrorView {
    RemotePluginCatalogErrorView::UnexpectedResponse(
        "remote installed plugin pagination returned an empty or repeated next page token"@,
    )
}

/// How a fetch goes on after a page: its plugins come after those so far, and a next page is asked
/// for only under a token that is new.
pub open spec fn after_page(progress: FetchProgress, page: InstalledPageView) -> FetchStepView {
    let plugins = progress.plugins + page.plugins;
    match page.next_page_token {
        None => FetchStepView::Done(plugins),
        Some(token) => if token.len() == 0 || progress.page_tokens.contains(token) {
            FetchStepView::Failed(bad_page_token())
        } else {
            FetchStepView::Continue(
                FetchProgress { plugins, page_tokens: progress.page_tokens.push(token) },
            )
        },
    }
}

/// The token of the page to ask for next; none for the first page.
pub open spec fn next_page_token(progress: FetchProgress) -> Option<Seq<char>> {
    if progress.page_tokens.len() == 0 {
        None
    } else {
        Some(progress.page_tokens.last())
    }
}

fn contains_text(items: &Vec<String>, text: &str) -> (found: bool)
    ensures
        found == texts(items@).contains(text@),
{
    let mut i: usize = 0;
    while i < items.len()
        invariant
            i <= items@.len(),
            forall|j: int| 0 <= j < i ==> texts(items@)[j] != text@,
        decreases items@.len() - i,
    {
        proof {
            assert(texts(items@)[i as int] == items@[i as int]@);
        }
        if same_text(items[i].as_str(), text) {
            return true;
        }
        i += 1;
    }
    false
}

impl InstalledPluginsFetch {
    /// A fetch before its first page.
    pub fn new() -> (fetch: Self)
        ensures
            fetch@.plugins.len() == 0,
            fetch@.page_tokens.len() == 0,
    {
        InstalledPluginsFetch { plugins: Vec::new(), page_tokens: Vec::new() }
    }

    /// The request for the next page.
    pub fn next_request(&self) -> (request: InstalledPageRequest)
        ensures
            optional_text(request.page_token) == next_page_token(self@),
            request.include_download_urls,
            request.limit == REMOTE_INSTALLED_PLUGIN_PAGE_LIMIT,
            request.limit == 1000,
    {
        let count: usize = self.page_tokens.len();
        let page_token = if count == 0 {
            None
        } else {
            Some(self.page_tokens[count - 1].clone())
        };
        InstalledPageRequest {
            page_token,
            include_download_urls: true,
            limit: REMOTE_INSTALLED_PLUGIN_PAGE_LIMIT,
        }
    }

    /// Takes the page that was asked for.
    pub fn page_received(self, page: InstalledPage) -> (step: FetchStep)
        ensures
            step@ == after_page(self@, page@),
    {
        let ghost progress = self@;
        let ghost more = page.plugins@;
        let mut plugins = self.plugins;
        let mut page_tokens = self.page_tokens;
        let mut added = page.plugins;
        let ghost before = plugins@;
        plugins.append(&mut added);
        proof {
            assert(items(plugins@) =~= items(before) + items(more));
        }
        match page.next_page_token {
            None => FetchStep::Done(plugins),
            Some(token) => {
                if token.as_str().is_empty() || contains_text(&page_tokens, token.as_str()) {
                    return FetchStep::Failed(
                        RemotePluginCatalogError::UnexpectedResponse(
                            "remote installed plugin pagination returned an empty or repeated next page token".to_owned(),
                        ),
                    );
                }
                let ghost tokens = page_tokens@;
                page_tokens.push(token);
                proof {
                    assert(texts(page_tokens@) =~= texts(tokens).push(token@));
                }
                FetchStep::Continue(InstalledPluginsFetch { plugins, page_tokens })
            },
        }
    }
}

/// A fetch that receives the given pages.
pub open spec fn after_pages(pages: Seq<InstalledPageView>) -> FetchStepView
    decreases pages.len(),
{
    if pages.len() == 0 {
        FetchStepView::Continue(
            FetchProgress { plugins: Seq::empty(), page_tokens: Seq::empty() },
        )
    } else {
        match after_pages(pages.drop_last()) {
            FetchStepView::Continue(progress) => after_page(progress, pages.last()),
            step => step,
        }
    }
}

/// The plugins of all pages, in order.
pub open spec fn all_plugins(pages: Seq<InstalledPageView>) -> Seq<RemotePluginInstalledItemView>
    decreases pages.len(),
{
    if pages.len() == 0 {
        Seq::empty()
    } else {
        all_plugins(pages.drop_last()) + pages.last().plugins
    }
}

/// Whether each page leads to a page that none before it led to.
pub open spec fn leads_on(pages: Seq<InstalledPageView>) -> bool {
    &&& forall|i: int|
        0 <= i < pages.len() ==> ((#[trigger] pages[i]).next_page_token matches Some(token)
            && token.len() > 0)
    &&& forall|i: int, j: int|
        0 <= i < j < pages.len() ==> (#[trigger] pages[i]).next_page_token != (
        #[trigger] pages[j]).next_page_token
}

/// The tokens that pages lead to.
pub open spec fn page_tokens(pages: Seq<InstalledPageView>) -> Seq<Seq<char>> {
    pages.map_values(|page: InstalledPageView| page.next_page_token->Some_0)
}

/// A fetch asks for another page exactly as long as every page led to a new one. By then it holds the
/// plugins of all pages in order, and the next request names the page that the last one led to.
pub proof fn lemma_fetch_follows_the_pages(pages: Seq<InstalledPageView>)
    ensures
        after_pages(pages) is Continue <==> leads_on(pages),
        after_pages(pages) matches FetchStepView::Continue(progress) ==> progress.plugins
            == all_plugins(pages) && progress.page_tokens == page_tokens(pages) && next_page_token(
            progress,
        ) == if pages.len() == 0 {
            None
        } else {
            pages.last().next_page_token
        },
    decreases pages.len(),
{
    if pages.len() == 0 {
        assert(page_tokens(pages) =~= Seq::<Seq<char>>::empty());
    } else {
        let before = pages.drop_last();
        let page = pages.last();
        lemma_fetch_follows_the_pages(before);
        if leads_on(pages) {
            assert forall|i: int| 0 <= i < before.len() implies ((
            #[trigger] before[i]).next_page_token matches Some(token) && token.len() > 0) by {
                assert(before[i] == pages[i]);
            }
            assert forall|i: int, j: int| 0 <= i < j < before.len() implies (
            #[trigger] before[i]).next_page_token != (#[trigger] before[j]).next_page_token by {
                assert(before[i] == pages[i] && before[j] == pages[j]);
            }
            assert(leads_on(before));
            assert(page == pages[pages.len() - 1]);
            let token = page.next_page_token->Some_0;
            if page_tokens(before).contains(token) {
                let i = choose|i: int|
                    0 <= i < before.len() && #[trigger] page_tokens(before)[i] == token;
                assert(pages[i].next_page_token == Some(token));
                assert(pages[i].next_page_token != pages[pages.len() - 1].next_page_token);
            }
            assert(page_tokens(pages) =~= page_tokens(before).push(token));
        } else if leads_on(before) {
            if page.next_page_token is Some && page.next_page_token->Some_0.len() > 0 {
                let token = page.next_page_token->Some_0;
                if !page_tokens(before).contains(token) {
                    assert forall|i: int| 0 <= i < pages.len() implies ((
                    #[trigger] pages[i]).next_page_token matches Some(token) && token.len() > 0) by {
                        if i < before.len() {
                            assert(before[i] == pages[i]);
                        }
                    }
                    assert forall|i: int, j: int| 0 <= i < j < pages.len() implies (
                    #[trigger] pages[i]).next_page_token != (
                    #[trigger] pages[j]).next_page_token by {
                        assert(before[i] == pages[i]);
                        if j < before.len() {
                            assert(before[j] == pages[j]);
                        } else {
                            assert(page_tokens(before)[i] != token);
                        }
                    }
                }
            }
        }
    }
}

/// A fetch that ends well ends with the page that leads nowhere, and the snapshot is the plugins of
/// all pages in order.
pub proof fn lemma_pages_are_joined_in_order(pages: Seq<InstalledPageView>, last: InstalledPageView)
    requires
        leads_on(pages),
        last.next_page_token is None,
    ensures
        after_pages(pages.push(last)) == FetchStepView::Done(all_plugins(pages.push(last))),
{
    lemma_fetch_follows_the_pages(pages);
    assert(pages.push(last).drop_last() =~= pages);
}

/// No page is asked for twice: a page that leads to one that was asked for, or to none by name, ends
/// the fetch with an error.
pub proof fn lemma_repeated_page_fails(pages: Seq<InstalledPageView>, last: InstalledPageView)
    requires
        leads_on(pages),
        last.next_page_token matches Some(token) && (token.len() == 0 || page_tokens(
            pages,
        ).contains(token)),
    ensures
        after_pages(pages.push(last)) == FetchStepView::Failed(bad_page_token()),
{
    lemma_fetch_follows_the_pages(pages);
    assert(pages.push(last).drop_last() =~= pages);
}

/// What happens to a cache.
pub enum CacheEvent {
    Invalidated,
    Fetched {
        key: InstalledSnapshotCacheKeyView,
        generation: u64,
        fetched: FetchedView,
        now: u64,
    },
}

/// The cache after one event.
pub open spec fn after_event(cache: SnapshotCacheView, event: CacheEvent) -> SnapshotCacheView {
    match event {
        CacheEvent::Invalidated => cache_after_invalidation(cache),
        CacheEvent::Fetched { key, generation, fetched, now } => cache_after_fetch(
            cache,
            key,
            generation,
            fetched,
            now,
        ),
    }
}

/// The cache after events.
pub open spec fn after_events(cache: SnapshotCacheView, events: Seq<CacheEvent>) -> SnapshotCacheView
    decreases events.len(),
{
    if events.len() == 0 {
        cache
    } else {
        after_event(after_events(cache, events.drop_last()), events.last())
    }
}

/// How often a cache was invalidated.
pub open spec fn invalidations(events: Seq<CacheEvent>) -> nat
    decreases events.len(),
{
    if events.len() == 0 {
        0
    } else {
        invalidations(events.drop_last()) + if events.last() is Invalidated {
            1nat
        } else {
            0nat
        }
    }
}

/// The generation counts the invalidations, and starts over after the largest number.
pub proof fn lemma_generation_counts_invalidations(
    cache: SnapshotCacheView,
    events: Seq<CacheEvent>,
)
    ensures
        after_events(cache, events).generation == (cache.generation + invalidations(events)) % (
        u64::MAX + 1),
    decreases events.len(),
{
    if events.len() > 0 {
        lemma_generation_counts_invalidations(cache, events.drop_last());
        let before = after_events(cache, events.drop_last());
        let sum = cache.generation + invalidations(events.drop_last());
        assert((sum + 1) % 0x10000000000000000 == if sum % 0x10000000000000000 == u64::MAX {
            0
        } else {
            sum % 0x10000000000000000 + 1
        });
    }
}

/// Whoever waits for a snapshot when it is invalidated gets the error that says so, whatever is
/// cached or fetched in the meantime, and what was fetched is not kept.
pub proof fn lemma_invalidation_aborts_waiting_callers(
    cache: SnapshotCacheView,
    events: Seq<CacheEvent>,
    key: InstalledSnapshotCacheKeyView,
    fetched: FetchedView,
    now: u64,
)
    requires
        0 < invalidations(events) <= u64::MAX,
    ensures
        turn_result(after_events(cache, events), key, cache.generation, now) == Some(
            Err::<Seq<RemotePluginInstalledItemView>, _>(invalidated()),
        ),
        fetch_result(after_events(cache, events), cache.generation, fetched) == Err::<
            Seq<RemotePluginInstalledItemView>,
            _,
        >(invalidated()),
        cache_after_fetch(after_events(cache, events), key, cache.generation, fetched, now)
            == after_events(cache, events),
        lookup_result(after_events(cache, events), key, cache.generation, now) matches Some(
            result,
        ) ==> result == Err::<Seq<RemotePluginInstalledItemView>, _>(invalidated()),
{
    lemma_generation_counts_invalidations(cache, events);
    let n = invalidations(events);
    let g = cache.generation as int;
    assert((g + n) % 0x10000000000000000 != g);
}

/// Callers that wait for the same snapshot share one fetch: once it is in, each of them is served
/// from the cache when its turn comes, and so is whoever asks later, until the result expires. Plugins
/// last longer than failures.
pub proof fn lemma_callers_share_a_fetch(
    cache: SnapshotCacheView,
    key: InstalledSnapshotCacheKeyView,
    fetched: FetchedView,
    now: u64,
    later: u64,
)
    requires
        now + time_to_live(fetched) <= u64::MAX,
    ensures
        ({
            let after = cache_after_fetch(cache, key, cache.generation, fetched, now);
            let shared = match fetched {
                FetchedView::Plugins(plugins) => Ok(plugins),
                FetchedView::Failure(error) => Err(
                    RemotePluginCatalogErrorView::UnexpectedResponse(error.message_text()),
                ),
            };
            let served = if later < now + time_to_live(fetched) {
                Some(shared)
            } else {
                None
            };
            &&& turn_result(after, key, cache.generation, later) == served
            &&& lookup_result(after, key, cache.generation, later) == served
        }),
{
}

/// A snapshot is served only to the identity that it was fetched for.
pub proof fn lemma_identities_do_not_share(
    cache: SnapshotCacheView,
    key: InstalledSnapshotCacheKeyView,
    other: InstalledSnapshotCacheKeyView,
    fetched: FetchedView,
    now: u64,
    later: u64,
)
    requires
        key != other,
    ensures
        turn_result(
            cache_after_fetch(cache, key, cache.generation, fetched, now),
            other,
            cache.generation,
            later,
        ) is None,
{
}

/// Whatever a cache holds was fetched for its key in the present generation: some fetch brought it,
/// and nothing was invalidated since.
pub proof fn lemma_cached_value_is_current(events: Seq<CacheEvent>, start: SnapshotCacheView)
    requires
        start.cached is None,
        after_events(start, events).cached is Some,
    ensures
        exists|i: int|
            0 <= i < events.len() && (#[trigger] events[i]) is Fetched && events[i]->key
                == after_events(start, events).cached->Some_0.key && events[i]->generation
                == after_events(start, events).generation && after_events(start, events)
                == after_event(after_events(start, events.take(i)), events[i]) && (forall|j: int|
                i < j < events.len() ==> !((#[trigger] events[j]) is Invalidated)),
    decreases events.len(),
{
    let last = events.len() - 1;
    let before = after_events(start, events.drop_last());
    assert(events.drop_last() =~= events.take(last));
    match events.last() {
        CacheEvent::Invalidated => {},
        CacheEvent::Fetched { key, generation, fetched, now } => {
            if generation == before.generation {
                assert(events[last] is Fetched);
            } else {
                lemma_cached_value_is_current(events.drop_last(), start);
                let i = choose|i: int|
                    0 <= i < last && (#[trigger] events.drop_last()[i]) is Fetched
                        && events.drop_last()[i]->key == before.cached->Some_0.key
                        && events.drop_last()[i]->generation == before.generation && before
                        == after_event(
                        after_events(start, events.drop_last().take(i)),
                        events.drop_last()[i],
                    ) && (forall|j: int|
                        i < j < last ==> !((#[trigger] events.drop_last()[j]) is Invalidated));
                assert(events[i] == events.drop_last()[i]);
                assert(events.drop_last().take(i) =~= events.take(i));
                assert forall|j: int| i < j < events.len() implies !((
                #[trigger] events[j]) is Invalidated) by {
                    if j < last {
                        assert(events.drop_last()[j] == events[j]);
                    }
                }
            }
        },
    }
}

/// The scopes divide a snapshot: every plugin is in the list of exactly one scope.
pub proof fn lemma_scopes_divide_a_snapshot(plugins: Seq<RemotePluginInstalledItemView>)
    ensures
        in_scope(plugins, RemotePluginScope::Global).to_multiset().add(
            in_scope(plugins, RemotePluginScope::User).to_multiset(),
        ).add(in_scope(plugins, RemotePluginScope::Workspace).to_multiset())
            == plugins.to_multiset(),
    decreases plugins.len(),
{
    broadcast use vstd::seq_lib::group_to_multiset_ensures;

    reveal(Seq::filter);
    if plugins.len() == 0 {
        assert(in_scope(plugins, RemotePluginScope::Global) =~= Seq::empty());
        assert(in_scope(plugins, RemotePluginScope::User) =~= Seq::empty());
        assert(in_scope(plugins, RemotePluginScope::Workspace) =~= Seq::empty());
        assert(plugins =~= Seq::empty());
    } else {
        let rest = plugins.drop_last();
        let plugin = plugins.last();
        lemma_scopes_divide_a_snapshot(rest);
        assert(plugins =~= rest.push(plugin));
        assert(plugins.to_multiset() =~= rest.to_multiset().insert(plugin));
        let scope = plugin.plugin.scope;
        assert(in_scope(plugins, scope) == in_scope(rest, scope).push(plugin));
        assert(in_scope(plugins, scope).to_multiset() =~= in_scope(rest, scope).to_multiset().insert(
            plugin,
        ));
        let divided = in_scope(plugins, RemotePluginScope::Global).to_multiset().add(
            in_scope(plugins, RemotePluginScope::User).to_multiset(),
        ).add(in_scope(plugins, RemotePluginScope::Workspace).to_multiset());
        assert forall|value: RemotePluginInstalledItemView|
            #![trigger divided.count(value)]
            #![trigger plugins.to_multiset().count(value)]
            divided.count(value) == plugins.to_multiset().count(value) by {
            let before = in_scope(rest, RemotePluginScope::Global).to_multiset().add(
                in_scope(rest, RemotePluginScope::User).to_multiset(),
            ).add(in_scope(rest, RemotePluginScope::Workspace).to_multiset());
            assert(before.count(value) == rest.to_multiset().count(value));
        }
        assert(divided =~= plugins.to_multiset());
    }
}

/// Where a caller that asks for a snapshot stands; every phase but the last names what it does next.
pub enum SnapshotPhase {
    /// Ask the cache.
    Lookup,
    /// Queue for the turn to fetch.
    AwaitTurn,
    /// Fetch.
    Fetch,
    /// The caller has its result.
    Done(SnapshotResult),
}

/// The value of a [`SnapshotPhase`].
pub enum SnapshotPhaseView {
    Lookup,
    AwaitTurn,
    Fetch,
    Done(Result<Seq<RemotePluginInstalledItemView>, RemotePluginCatalogErrorView>),
}

impl View for SnapshotPhase {
    type V = SnapshotPhaseView;

    open spec fn view(&self) -> SnapshotPhaseView {
        match *self {
            SnapshotPhase::Lookup => SnapshotPhaseView::Lookup,
            SnapshotPhase::AwaitTurn => SnapshotPhaseView::AwaitTurn,
            SnapshotPhase::Fetch => SnapshotPhaseView::Fetch,
            SnapshotPhase::Done(result) => SnapshotPhaseView::Done(snapshot_value(result)),
        }
    }
}

/// What happens to a caller.
pub enum SnapshotEvent {
    /// The cache can be asked.
    CacheReady,
    /// It is the caller's turn to fetch.
    TurnGranted,
    /// No turn will come.
    GateClosed,
    /// The fetch is over.
    Fetched(Result<Vec<RemotePluginInstalledItem>, RemotePluginCatalogError>),
}

/// The value of a [`SnapshotEvent`].
pub enum SnapshotEventView {
    CacheReady,
    TurnGranted,
    GateClosed,
    Fetched(FetchedView),
}

impl View for SnapshotEvent {
    type V = SnapshotEventView;

    open spec fn view(&self) -> SnapshotEventView {
        match *self {
            SnapshotEvent::CacheReady => SnapshotEventView::CacheReady,
            SnapshotEvent::TurnGranted => SnapshotEventView::TurnGranted,
            SnapshotEvent::GateClosed => SnapshotEventView::GateClosed,
            SnapshotEvent::Fetched(result) => SnapshotEventView::Fetched(fetched_value(result)),
        }
    }
}

/// The phase after an event, and the cache with it. An event that the phase does not wait for changes
/// nothing.
pub open spec fn next_snapshot_phase(
    phase: SnapshotPhaseView,
    key: InstalledSnapshotCacheKeyView,
    generation: u64,
    cache: SnapshotCacheView,
    event: SnapshotEventView,
    now: u64,
) -> (SnapshotPhaseView, SnapshotCacheView) {
    match (phase, event) {
        (SnapshotPhaseView::Lookup, SnapshotEventView::CacheReady) => match lookup_result(
            cache,
            key,
            generation,
            now,
        ) {
            Some(result) => (SnapshotPhaseView::Done(result), cache),
            None => (SnapshotPhaseView::AwaitTurn, cache),
        },
        (SnapshotPhaseView::AwaitTurn, SnapshotEventView::TurnGranted) => match turn_result(
            cache,
            key,
            generation,
            now,
        ) {
            Some(result) => (SnapshotPhaseView::Done(result), cache),
            None => (SnapshotPhaseView::Fetch, cache),
        },
        (SnapshotPhaseView::AwaitTurn, SnapshotEventView::GateClosed) => (
            SnapshotPhaseView::Done(Err(gate_closed())),
            cache,
        ),
        (SnapshotPhaseView::Fetch, SnapshotEventView::Fetched(fetched)) => (
            SnapshotPhaseView::Done(fetch_result(cache, generation, fetched)),
            cache_after_fetch(cache, key, generation, fetched, now),
        ),
        _ => (phase, cache),
    }
}

/// A caller that asks for a snapshot.
pub struct SnapshotRequest {
    key: InstalledSnapshotCacheKey,
    generation: u64,
}

/// The value of a [`SnapshotRequest`].
pub struct SnapshotRequestView {
    pub key: InstalledSnapshotCacheKeyView,
    pub generation: u64,
}

impl View for SnapshotRequest {
    type V = SnapshotRequestView;

    closed spec fn view(&self) -> SnapshotRequestView {
        SnapshotRequestView { key: self.key@, generation: self.generation }
    }
}

impl SnapshotRequest {
    /// A caller that starts in the cache's present generation. It begins in the phase
    /// [`SnapshotPhase::Lookup`].
    pub fn new(
        cache: &RemoteInstalledPluginSnapshotCache,
        config: &RemotePluginServiceConfig,
        auth: &AccountAuth,
    ) -> (request: Self)
        ensures
            request@ == (SnapshotRequestView {
                key: snapshot_key(config.chatgpt_base_url@, auth@),
                generation: cache@.generation,
            }),
    {
        SnapshotRequest {
            key: InstalledSnapshotCacheKey::new(config, auth),
            generation: cache.generation(),
        }
    }

    /// The generation in which the caller started.
    pub fn generation(&self) -> (generation: u64)
        ensures
            generation == self@.generation,
    {
        self.generation
    }

    /// Advances the caller by one event.
    pub fn advance(
        &self,
        phase: SnapshotPhase,
        cache: &mut RemoteInstalledPluginSnapshotCache,
        event: SnapshotEvent,
        now: u64,
    ) -> (next: SnapshotPhase)
        requires
            phase is Fetch && self@.generation == old(cache)@.generation ==> (
            event@ matches SnapshotEventView::Fetched(fetched) ==> now + time_to_live(fetched)
                <= u64::MAX),
        ensures
            (next@, final(cache)@) == next_snapshot_phase(
                phase@,
                self@.key,
                self@.generation,
                old(cache)@,
                event@,
                now,
            ),
    {
        match phase {
            SnapshotPhase::Lookup => match event {
                SnapshotEvent::CacheReady => match cache.lookup(&self.key, self.generation, now) {
                    Some(result) => SnapshotPhase::Done(result),
                    None => SnapshotPhase::AwaitTurn,
                },
                _ => SnapshotPhase::Lookup,
            },
            SnapshotPhase::AwaitTurn => match event {
                SnapshotEvent::TurnGranted => match cache.turn_reached(
                    &self.key,
                    self.generation,
                    now,
                ) {
                    Some(result) => SnapshotPhase::Done(result),
                    None => SnapshotPhase::Fetch,
                },
                SnapshotEvent::GateClosed => SnapshotPhase::Done(Err(fetch_gate_closed_error())),
                _ => SnapshotPhase::AwaitTurn,
            },
            SnapshotPhase::Fetch => match event {
                SnapshotEvent::Fetched(result) => SnapshotPhase::Done(
                    cache.fetched(self.key.clone(), self.generation, result, now),
                ),
                _ => SnapshotPhase::Fetch,
            },
            SnapshotPhase::Done(result) => SnapshotPhase::Done(result),
        }
    }
}

/// One caller whose turn comes: when it comes, what a fetch would yield and when that would be in.
pub struct Turn {
    pub granted: u64,
    pub fetched: FetchedView,
    pub finished: u64,
}

/// What turns lead to: the cache, the callers' results, and how often was fetched.
pub struct Turns {
    pub cache: SnapshotCacheView,
    pub results: Seq<Result<Seq<RemotePluginInstalledItemView>, RemotePluginCatalogErrorView>>,
    pub fetches: nat,
}

/// Callers with the same key take their turns one after the other.
pub open spec fn after_turns(
    cache: SnapshotCacheView,
    key: InstalledSnapshotCacheKeyView,
    generation: u64,
    turns: Seq<Turn>,
) -> Turns
    decreases turns.len(),
{
    if turns.len() == 0 {
        Turns { cache, results: Seq::empty(), fetches: 0 }
    } else {
        let before = after_turns(cache, key, generation, turns.drop_last());
        let turn = turns.last();
        let granted = next_snapshot_phase(
            SnapshotPhaseView::AwaitTurn,
            key,
            generation,
            before.cache,
            SnapshotEventView::TurnGranted,
            turn.granted,
        );
        match granted.0 {
            SnapshotPhaseView::Done(result) => Turns {
                results: before.results.push(result),
                ..before
            },
            _ => {
                let finished = next_snapshot_phase(
                    granted.0,
                    key,
                    generation,
                    granted.1,
                    SnapshotEventView::Fetched(turn.fetched),
                    turn.finished,
                );
                Turns {
                    cache: finished.1,
                    results: before.results.push(finished.0->Done_0),
                    fetches: before.fetches + 1,
                }
            },
        }
    }
}

/// Callers that wait at the same time share one request to the service: the first turn fetches, and
/// every other caller whose turn comes before that result expires gets what it brought, be it plugins
/// or a failure.
pub proof fn lemma_waiting_callers_share_one_request(
    cache: SnapshotCacheView,
    key: InstalledSnapshotCacheKeyView,
    turns: Seq<Turn>,
)
    requires
        turns.len() > 0,
        cached_result(cache, key, turns[0].granted) is None,
        turns[0].finished + time_to_live(turns[0].fetched) <= u64::MAX,
        forall|i: int|
            0 < i < turns.len() ==> (#[trigger] turns[i]).granted < turns[0].finished
                + time_to_live(turns[0].fetched),
    ensures
        after_turns(cache, key, cache.generation, turns).fetches == 1,
        after_turns(cache, key, cache.generation, turns).results.len() == turns.len(),
        after_turns(cache, key, cache.generation, turns).results[0] == fetch_result(
            cache,
            cache.generation,
            turns[0].fetched,
        ),
        forall|i: int|
            0 < i < turns.len() ==> #[trigger] after_turns(
                cache,
                key,
                cache.generation,
                turns,
            ).results[i] == match turns[0].fetched {
                FetchedView::Plugins(plugins) => Ok(plugins),
                FetchedView::Failure(error) => Err(
                    RemotePluginCatalogErrorView::UnexpectedResponse(error.message_text()),
                ),
            },
        after_turns(cache, key, cache.generation, turns).cache == cache_after_fetch(
            cache,
            key,
            cache.generation,
            turns[0].fetched,
            turns[0].finished,
        ),
    decreases turns.len(),
{
    let earlier = turns.drop_last();
    if earlier.len() == 0 {
        assert(turns.last() == turns[0]);
        assert(after_turns(cache, key, cache.generation, earlier).cache == cache);
    } else {
        assert(earlier[0] == turns[0]);
        assert forall|i: int| 0 < i < earlier.len() implies (#[trigger] earlier[i]).granted
            < earlier[0].finished + time_to_live(earlier[0].fetched) by {
            assert(earlier[i] == turns[i]);
        }
        lemma_waiting_callers_share_one_request(cache, key, earlier);
        assert(turns.last() == turns[turns.len() - 1]);
    }
}

/// Whether an event leaves what is cached as it is: a result that was fetched in another generation.
pub open spec fn is_stale_fetch(event: CacheEvent, generation: u64) -> bool {
    event matches CacheEvent::Fetched { generation: started, .. } && started != generation
}

proof fn lemma_stale_fetches_change_nothing(cache: SnapshotCacheView, events: Seq<CacheEvent>)
    requires
        forall|i: int|
            0 <= i < events.len() ==> is_stale_fetch(#[trigger] events[i], cache.generation),
    ensures
        after_events(cache, events) == cache,
    decreases events.len(),
{
    if events.len() > 0 {
        let earlier = events.drop_last();
        assert forall|i: int| 0 <= i < earlier.len() implies is_stale_fetch(
            #[trigger] earlier[i],
            cache.generation,
        ) by {
            assert(earlier[i] == events[i]);
        }
        lemma_stale_fetches_change_nothing(cache, earlier);
        assert(is_stale_fetch(events[events.len() - 1], cache.generation));
    }
}

/// A call after a fetch makes no request of its own until the result expires: with nothing invalidated
/// and nothing else stored since, a call for the same key gets the plugins, or what the failure said,
/// right away or when its turn comes. From then on, and for any other key at once, the call fetches
/// again. The call that fetched gets the plugins or the failure itself.
pub proof fn lemma_fetched_result_serves_later_calls(
    cache: SnapshotCacheView,
    key: InstalledSnapshotCacheKeyView,
    fetched: FetchedView,
    now: u64,
    events: Seq<CacheEvent>,
    other: InstalledSnapshotCacheKeyView,
    later: u64,
)
    requires
        now + time_to_live(fetched) <= u64::MAX,
        forall|i: int|
            0 <= i < events.len() ==> is_stale_fetch(#[trigger] events[i], cache.generation),
    ensures
        ({
            let stored = next_snapshot_phase(
                SnapshotPhaseView::Fetch,
                key,
                cache.generation,
                cache,
                SnapshotEventView::Fetched(fetched),
                now,
            );
            let present = after_events(stored.1, events);
            let looked_up = next_snapshot_phase(
                SnapshotPhaseView::Lookup,
                other,
                present.generation,
                present,
                SnapshotEventView::CacheReady,
                later,
            );
            let turn = next_snapshot_phase(
                SnapshotPhaseView::AwaitTurn,
                other,
                present.generation,
                present,
                SnapshotEventView::TurnGranted,
                later,
            );
            let shared = match fetched {
                FetchedView::Plugins(plugins) => Ok(plugins),
                FetchedView::Failure(error) => Err(
                    RemotePluginCatalogErrorView::UnexpectedResponse(error.message_text()),
                ),
            };
            &&& stored.0 == SnapshotPhaseView::Done(
                match fetched {
                    FetchedView::Plugins(plugins) => Ok(plugins),
                    FetchedView::Failure(error) => Err(error),
                },
            )
            &&& other == key && later < now + time_to_live(fetched) ==> looked_up
                == (SnapshotPhaseView::Done(shared), present) && turn == (
                SnapshotPhaseView::Done(shared),
                present,
            )
            &&& other != key || later >= now + time_to_live(fetched) ==> looked_up
                == (SnapshotPhaseView::AwaitTurn, present) && turn == (
                SnapshotPhaseView::Fetch,
                present,
            )
        }),
{
    let stored = cache_after_fetch(cache, key, cache.generation, fetched, now);
    lemma_stale_fetches_change_nothing(stored, events);
}

/// Queries of any scopes that run at the same time on an empty cache share one fetch of the snapshot,
/// and each gets exactly the plugins of its scope, unchanged and in order, as long as its turn comes
/// before the snapshot expires. The lists of the three scopes together are the snapshot, with nothing
/// lost or doubled.
pub proof fn lemma_scope_queries_share_one_snapshot(
    cache: SnapshotCacheView,
    key: InstalledSnapshotCacheKeyView,
    turns: Seq<Turn>,
    scopes: Seq<RemotePluginScope>,
    snapshot: Seq<RemotePluginInstalledItemView>,
)
    requires
        turns.len() > 0,
        scopes.len() == turns.len(),
        cache.cached is None,
        turns[0].fetched == FetchedView::Plugins(snapshot),
        turns[0].finished + REMOTE_INSTALLED_PLUGIN_SNAPSHOT_TTL <= u64::MAX,
        forall|i: int|
            0 < i < turns.len() ==> (#[trigger] turns[i]).granted < turns[0].finished
                + REMOTE_INSTALLED_PLUGIN_SNAPSHOT_TTL,
    ensures
        after_turns(cache, key, cache.generation, turns).fetches == 1,
        after_turns(cache, key, cache.generation, turns).results.len() == turns.len(),
        forall|i: int|
            0 <= i < turns.len() ==> scope_result(
                #[trigger] after_turns(cache, key, cache.generation, turns).results[i],
                scopes[i],
            ) == Ok::<_, RemotePluginCatalogErrorView>(in_scope(snapshot, scopes[i])),
        in_scope(snapshot, RemotePluginScope::Global).to_multiset().add(
            in_scope(snapshot, RemotePluginScope::User).to_multiset(),
        ).add(in_scope(snapshot, RemotePluginScope::Workspace).to_multiset())
            == snapshot.to_multiset(),
{
    lemma_waiting_callers_share_one_request(cache, key, turns);
    lemma_scopes_divide_a_snapshot(snapshot);
    let results = after_turns(cache, key, cache.generation, turns).results;
    assert forall|i: int| 0 <= i < turns.len() implies scope_result(
        #[trigger] results[i],
        scopes[i],
    ) == Ok::<_, RemotePluginCatalogErrorView>(in_scope(snapshot, scopes[i])) by {
        if i > 0 {
            assert(results[i] == Ok::<_, RemotePluginCatalogErrorView>(snapshot));
        }
    }
}

/// A scope's list holds exactly the plugins whose own scope it is, in the order of the snapshot: the
/// places of the listed plugins in the snapshot ascend, each of these plugins has that scope, and every
/// plugin of the snapshot that has it is at one of these places. A failed snapshot fails for every scope.
pub proof fn lemma_scope_lists_hold_exactly_their_plugins(
    plugins: Seq<RemotePluginInstalledItemView>,
    scope: RemotePluginScope,
    error: RemotePluginCatalogErrorView,
) -> (places: Seq<int>)
    ensures
        scope_result(Ok(plugins), scope) matches Ok(listed) && {
            &&& listed.len() == places.len()
            &&& forall|i: int|
                0 <= i < listed.len() ==> {
                    &&& 0 <= #[trigger] places[i] < plugins.len()
                    &&& listed[i] == plugins[places[i]]
                    &&& listed[i].plugin.scope == scope
                }
            &&& forall|i: int|
                0 <= i < listed.len() ==> (#[trigger] listed[i]).plugin.scope == scope
        },
        forall|i: int, j: int| 0 <= i < j < places.len() ==> places[i] < places[j],
        forall|k: int|
            0 <= k < plugins.len() && (#[trigger] plugins[k]).plugin.scope == scope
                ==> places.contains(k),
        scope_result(Err(error), scope) == Err::<Seq<RemotePluginInstalledItemView>, _>(error),
    decreases plugins.len(),
{
    reveal(Seq::filter);
    if plugins.len() == 0 {
        assert(in_scope(plugins, scope) =~= Seq::empty());
        Seq::empty()
    } else {
        let rest = plugins.drop_last();
        let last = plugins.len() - 1;
        let before = lemma_scope_lists_hold_exactly_their_plugins(rest, scope, error);
        let places = if plugins.last().plugin.scope == scope {
            before.push(last)
        } else {
            before
        };
        let listed = in_scope(plugins, scope);
        assert forall|i: int| 0 <= i < listed.len() implies {
            &&& 0 <= #[trigger] places[i] < plugins.len()
            &&& listed[i] == plugins[places[i]]
            &&& listed[i].plugin.scope == scope
        } by {
            if i < before.len() {
                assert(places[i] == before[i]);
                assert(rest[before[i]] == plugins[before[i]]);
            }
        }
        assert forall|i: int| 0 <= i < listed.len() implies (#[trigger] listed[i]).plugin.scope
            == scope by {
            assert(0 <= places[i]);
        }
        assert forall|k: int|
            0 <= k < plugins.len() && (#[trigger] plugins[k]).plugin.scope
                == scope implies places.contains(k) by {
            if k < last {
                assert(rest[k] == plugins[k]);
                assert(before.contains(k));
                let i = choose|i: int| 0 <= i < before.len() && before[i] == k;
                assert(places[i] == k);
            } else {
                assert(places[before.len() as int] == k);
            }
        }
        places
    }
}

/// Two requests share a key exactly if they agree on everything that a snapshot depends on: the address
/// up to slashes at its end, the account, the user, the plan and the mode of authentication.
pub proof fn lemma_keys_tell_identities_apart(
    first_url: Seq<char>,
    first: AccountAuth,
    second_url: Seq<char>,
    second: AccountAuth,
)
    ensures
        snapshot_key(first_url, first@) == snapshot_key(second_url, second@) <==> {
            &&& without_trailing_slashes(first_url) == without_trailing_slashes(second_url)
            &&& optional_text(first.account_id) == optional_text(second.account_id)
            &&& optional_text(first.chatgpt_user_id) == optional_text(second.chatgpt_user_id)
            &&& optional_text(first.plan_type) == optional_text(second.plan_type)
            &&& first.auth_mode@ == second.auth_mode@
        },
        ({
            let key = snapshot_key(first_url, first@);
            &&& key.chatgpt_base_url == without_trailing_slashes(first_url)
            &&& key.account_id == optional_text(first.account_id)
            &&& key.chatgpt_user_id == optional_text(first.chatgpt_user_id)
            &&& key.plan_type == optional_text(first.plan_type)
            &&& key.auth_mode == first.auth_mode@
            &&& key.product_sku == "codex"@
        }),
{
}

/// What a fetch puts into the cache is found there under its own key for thirty seconds where plugins
/// were fetched and for one second where the fetch failed, and under no other key and no longer. The
/// failure comes back with its message.
pub proof fn lemma_how_long_results_are_kept(
    cache: SnapshotCacheView,
    key: InstalledSnapshotCacheKeyView,
    plugins: Seq<RemotePluginInstalledItemView>,
    error: RemotePluginCatalogErrorView,
    message: Seq<char>,
    now: u64,
    asked_key: InstalledSnapshotCacheKeyView,
    asked: u64,
)
    requires
        now + 30_000_000_000 <= u64::MAX,
        error == RemotePluginCatalogErrorView::Request(message) || error
            == RemotePluginCatalogErrorView::UnexpectedResponse(message),
    ensures
        cached_result(
            cache_after_fetch(cache, key, cache.generation, FetchedView::Plugins(plugins), now),
            asked_key,
            asked,
        ) == if asked_key == key && asked < now + 30_000_000_000 {
            Some(Ok::<_, RemotePluginCatalogErrorView>(plugins))
        } else {
            None
        },
        cached_result(
            cache_after_fetch(cache, key, cache.generation, FetchedView::Failure(error), now),
            asked_key,
            asked,
        ) == if asked_key == key && asked < now + 1_000_000_000 {
            Some(
                Err::<Seq<RemotePluginInstalledItemView>, _>(
                    RemotePluginCatalogErrorView::UnexpectedResponse(message),
                ),
            )
        } else {
            None
        },
        fetch_result(cache, cache.generation, FetchedView::Plugins(plugins)) == Ok::<
            _,
            RemotePluginCatalogErrorView,
        >(plugins),
        fetch_result(cache, cache.generation, FetchedView::Failure(error)) == Err::<
            Seq<RemotePluginInstalledItemView>,
            _,
        >(error),
{
}

/// A caller that started before an invalidation gets no plugins, neither cached nor fetched, and what it
/// fetched is not kept. One that started since gets what is cached for it.
pub proof fn lemma_outdated_callers_are_told(
    cache: SnapshotCacheView,
    key: InstalledSnapshotCacheKeyView,
    generation: u64,
    fetched: FetchedView,
    now: u64,
)
    ensures
        ({
            let outdated = Err::<Seq<RemotePluginInstalledItemView>, _>(
                RemotePluginCatalogErrorView::UnexpectedResponse(
                    "remote installed plugin snapshot was invalidated while loading"@,
                ),
            );
            let found = cached_result(cache, key, now);
            &&& generation != cache.generation ==> {
                &&& turn_result(cache, key, generation, now) == Some(outdated)
                &&& fetch_result(cache, generation, fetched) == outdated
                &&& cache_after_fetch(cache, key, generation, fetched, now) == cache
                &&& lookup_result(cache, key, generation, now) == if found is Some {
                    Some(outdated)
                } else {
                    None
                }
            }
            &&& generation == cache.generation ==> {
                &&& turn_result(cache, key, generation, now) == found
                &&& lookup_result(cache, key, generation, now) == found
            }
            &&& cache_after_fetch(cache, key, generation, fetched, now).generation
                == cache.generation
        }),
{
}

/// After an invalidation nothing is cached for anybody, and every caller that started before it is
/// outdated.
pub proof fn lemma_invalidation_empties_the_cache(
    cache: SnapshotCacheView,
    key: InstalledSnapshotCacheKeyView,
    now: u64,
)
    ensures
        cached_result(cache_after_invalidation(cache), key, now) is None,
        cache_after_invalidation(cache).generation != cache.generation,
        !holds_something(cache_after_invalidation(cache)),
        cached_result(cache, key, now) is Some ==> holds_something(cache),
        holds_something(cache) <==> cache.cached is Some,
        cache.generation < u64::MAX ==> cache_after_invalidation(cache).generation
            == cache.generation + 1,
{
}

/// A caller fetches only when its turn has come and the cache has nothing for it; a cached result ends
/// the request at either look into the cache, a closed gate ends it with an error, and the fetch ends it
/// with what it came to. Nothing but the fetch changes the cache.
pub proof fn lemma_when_a_caller_fetches(
    key: InstalledSnapshotCacheKeyView,
    generation: u64,
    cache: SnapshotCacheView,
    fetched: FetchedView,
    now: u64,
)
    ensures
        ({
            let asked = next_snapshot_phase(
                SnapshotPhaseView::Lookup,
                key,
                generation,
                cache,
                SnapshotEventView::CacheReady,
                now,
            );
            let turn = next_snapshot_phase(
                SnapshotPhaseView::AwaitTurn,
                key,
                generation,
                cache,
                SnapshotEventView::TurnGranted,
                now,
            );
            let closed = next_snapshot_phase(
                SnapshotPhaseView::AwaitTurn,
                key,
                generation,
                cache,
                SnapshotEventView::GateClosed,
                now,
            );
            let finished = next_snapshot_phase(
                SnapshotPhaseView::Fetch,
                key,
                generation,
                cache,
                SnapshotEventView::Fetched(fetched),
                now,
            );
            let usable = cache.cached matches Some(cached) && cached.key == key && now
                < cached.expires_at;
            &&& asked.1 == cache && turn.1 == cache && closed.1 == cache
            &&& asked.0 is AwaitTurn <==> !usable
            &&& asked.0 is Done <==> usable
            &&& turn.0 is Fetch <==> !usable && generation == cache.generation
            &&& turn.0 is Done <==> usable || generation != cache.generation
            &&& closed.0 == SnapshotPhaseView::Done(
                Err(
                    RemotePluginCatalogErrorView::UnexpectedResponse(
                        "remote installed plugin snapshot fetch gate was closed"@,
                    ),
                ),
            )
            &&& generation == cache.generation ==> finished.0 == SnapshotPhaseView::Done(
                match fetched {
                    FetchedView::Plugins(plugins) => Ok(plugins),
                    FetchedView::Failure(error) => Err(error),
                },
            )
            &&& generation == cache.generation ==> (finished.1.cached matches Some(cached)
                && cached.key == key)
        }),
{
}

/// Every page counts whole and in order. Without a token the fetch is done; a token that is new leads to
/// the page that is asked for next; an empty token, or one that came before, ends the fetch with an error.
pub proof fn lemma_a_page_counts_whole(progress: FetchProgress, page: InstalledPageView)
    ensures
        ({
            let step = after_page(progress, page);
            let count = progress.plugins.len() as int;
            &&& step is Done <==> page.next_page_token is None
            &&& step is Failed <==> (page.next_page_token matches Some(token) && (token.len() == 0
                || exists|i: int|
                0 <= i < progress.page_tokens.len() && #[trigger] progress.page_tokens[i] == token))
            &&& step matches FetchStepView::Failed(error) ==> error
                == RemotePluginCatalogErrorView::UnexpectedResponse(
                "remote installed plugin pagination returned an empty or repeated next page token"@,
            )
            &&& step matches FetchStepView::Done(plugins) ==> plugins.take(count)
                == progress.plugins && plugins.skip(count) == page.plugins
            &&& step matches FetchStepView::Continue(next) ==> {
                &&& next.plugins.take(count) == progress.plugins
                &&& next.plugins.skip(count) == page.plugins
                &&& next.page_tokens.len() == progress.page_tokens.len() + 1
                &&& next.page_tokens.drop_last() == progress.page_tokens
                &&& page.next_page_token == Some(next.page_tokens.last())
                &&& next_page_token(next) == page.next_page_token
            }
        }),
        progress.page_tokens.len() == 0 ==> next_page_token(progress) is None,
{
    let plugins = progress.plugins + page.plugins;
    let count = progress.plugins.len() as int;
    assert(plugins.take(count) =~= progress.plugins);
    assert(plugins.skip(count) =~= page.plugins);
    if let Some(token) = page.next_page_token {
        assert(progress.page_tokens.push(token).drop_last() =~= progress.page_tokens);
    }
}

/// Items are compared and handed on with everything that the catalog sent of them.
pub proof fn lemma_items_are_taken_whole(page: InstalledPage, i: int)
    requires
        0 <= i < page.plugins@.len(),
    ensures
        page@.plugins.len() == page.plugins@.len(),
        ({
            let item = page.plugins@[i];
            let value = page@.plugins[i];
            let release = value.plugin.release;
            &&& value.enabled == item.enabled
            &&& value.raw == item.raw@
            &&& value.disabled_skill_names == texts(item.disabled_skill_names@)
            &&& value.plugin.id == item.plugin.id@
            &&& value.plugin.name == item.plugin.name@
            &&& value.plugin.scope == item.plugin.scope
            &&& value.plugin.installation_policy == item.plugin.installation_policy@
            &&& value.plugin.authentication_policy == item.plugin.authentication_policy@
            &&& value.plugin.status == item.plugin.status@
            &&& value.plugin.discoverability == optional_text(item.plugin.discoverability)
            &&& release.version == item.plugin.release.version@
            &&& release.display_name == item.plugin.release.display_name@
            &&& release.description == item.plugin.release.description@
            &&& release.bundle_download_url == optional_text(
                item.plugin.release.bundle_download_url,
            )
            &&& release.app_manifest == optional_text(item.plugin.release.app_manifest)
        }),
        page@.next_page_token == optional_text(page.next_page_token),
{
}

} // verus!
