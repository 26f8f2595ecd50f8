use codex_flows::auth::AccountAuth;
use codex_flows::plugin_snapshot::{
    fetch_gate_closed_error, installed_plugins_for_scope, snapshot_invalidated_error,
    FetchStep, InstalledPage, InstalledPageRequest, InstalledPluginsFetch,
    InstalledSnapshotCacheKey, RemoteInstalledPluginSnapshotCache, RemotePlugin,
    RemotePluginCatalogError, RemotePluginInstalledItem, RemotePluginRelease, RemotePluginScope,
    RemotePluginServiceConfig, SnapshotEvent, SnapshotPhase, SnapshotRequest, SnapshotResult,
};

const SECOND: u64 = 1_000_000_000;

fn installed_plugin(index: usize, scope: RemotePluginScope) -> RemotePluginInstalledItem {
    RemotePluginInstalledItem {
        plugin: RemotePlugin {
            id: format!("plugin-{index:03}"),
            name: format!("plugin-{index:03}"),
            scope,
            installation_policy: "AVAILABLE".to_string(),
            authentication_policy: "ON_USE".to_string(),
            status: "ENABLED".to_string(),
            discoverability: if scope == RemotePluginScope::Workspace {
                Some("LISTED".to_string())
            } else {
                None
            },
            release: RemotePluginRelease {
                version: "1.2.3".to_string(),
                display_name: format!("Plugin {index:03}"),
                description: "Remote plugin".to_string(),
                bundle_download_url: Some(format!("https://example.com/plugin-{index:03}.tar.gz")),
                app_manifest: Some(format!(
                    "{{\"apps\":{{\"app\":{{\"id\":\"app-{index:03}\"}}}}}}"
                )),
            },
        },
        enabled: index % 2 == 0,
        disabled_skill_names: Vec::new(),
        raw: format!(
            "{{\"id\":\"plugin-{index:03}\",\"release\":{{\"interface\":{{}},\"skills\":[]}}}}"
        ),
    }
}

fn auth(account_id: &str) -> AccountAuth {
    AccountAuth {
        is_chatgpt_auth: true,
        chatgpt_user_id: Some("user-1".to_string()),
        account_id: Some(account_id.to_string()),
        plan_type: Some("pro".to_string()),
        auth_mode: "chatgpt".to_string(),
    }
}

fn key(account_id: &str) -> InstalledSnapshotCacheKey {
    InstalledSnapshotCacheKey::new(
        &RemotePluginServiceConfig {
            chatgpt_base_url: "https://chatgpt.com/backend-api//".to_string(),
        },
        &auth(account_id),
    )
}

fn failure(message: &str) -> RemotePluginCatalogError {
    RemotePluginCatalogError::Request(message.to_string())
}

/// Fetches from pages that are found by their tokens, and counts the requests.
fn fetch(
    page_for: impl Fn(&InstalledPageRequest) -> InstalledPage,
) -> (Result<Vec<RemotePluginInstalledItem>, RemotePluginCatalogError>, usize) {
    let mut fetch = InstalledPluginsFetch::new();
    let mut requests = 0;
    loop {
        let request = fetch.next_request();
        assert!(request.include_download_urls);
        assert_eq!(request.limit, 1000);
        requests += 1;
        match fetch.page_received(page_for(&request)) {
            FetchStep::Continue(next) => fetch = next,
            FetchStep::Done(plugins) => return (Ok(plugins), requests),
            FetchStep::Failed(error) => return (Err(error), requests),
        }
    }
}

fn names(result: SnapshotResult, scope: RemotePluginScope) -> Vec<String> {
    installed_plugins_for_scope(result, scope)
        .expect("scope partition should load")
        .into_iter()
        .map(|plugin| plugin.plugin.name)
        .collect()
}

#[test]
fn unscoped_snapshot_follows_pagination_and_preserves_raw_metadata() {
    let (result, requests) = fetch(|request| match request.page_token.as_deref() {
        None => InstalledPage {
            plugins: (0..50)
                .map(|index| installed_plugin(index, RemotePluginScope::Global))
                .collect(),
            next_page_token: Some("page-2".to_string()),
        },
        Some("page-2") => InstalledPage {
            plugins: vec![
                installed_plugin(50, RemotePluginScope::User),
                installed_plugin(51, RemotePluginScope::Workspace),
            ],
            next_page_token: None,
        },
        Some(other) => panic!("unexpected page: {other}"),
    });
    assert_eq!(requests, 2);

    let mut cache = RemoteInstalledPluginSnapshotCache::default();
    let plugins = result.expect("unscoped snapshot should load");
    let snapshot = cache
        .fetched(key("account_id"), 0, Ok(plugins), 0)
        .expect("unscoped snapshot should load");

    assert_eq!(snapshot.len(), 52);
    assert_eq!(snapshot[50].plugin.scope, RemotePluginScope::User);
    assert_eq!(snapshot[51].plugin.scope, RemotePluginScope::Workspace);
    assert_eq!(
        snapshot[51].plugin.release.bundle_download_url.as_deref(),
        Some("https://example.com/plugin-051.tar.gz")
    );
    assert_eq!(
        snapshot[51].plugin.release.app_manifest.as_deref(),
        Some("{\"apps\":{\"app\":{\"id\":\"app-051\"}}}")
    );
    assert_eq!(snapshot[51].plugin.installation_policy, "AVAILABLE");
    assert_eq!(snapshot[51].plugin.authentication_policy, "ON_USE");
    assert_eq!(
        snapshot[51].raw,
        "{\"id\":\"plugin-051\",\"release\":{\"interface\":{},\"skills\":[]}}"
    );
    assert_eq!(snapshot[7], installed_plugin(7, RemotePluginScope::Global));
}

#[test]
fn concurrent_scope_partitions_share_one_upstream_request() {
    let mut cache = RemoteInstalledPluginSnapshotCache::default();
    let key = || key("account_id");
    let generation = cache.generation();
    for _ in 0..3 {
        assert!(cache.lookup(&key(), generation, 0).is_none());
    }

    // The first caller has its turn and fetches; the others find its result when theirs comes.
    assert!(cache.turn_reached(&key(), generation, 0).is_none());
    let plugins = vec![
        installed_plugin(0, RemotePluginScope::Global),
        installed_plugin(1, RemotePluginScope::User),
        installed_plugin(2, RemotePluginScope::Workspace),
    ];
    let global = cache.fetched(key(), generation, Ok(plugins), SECOND / 10);
    let user = cache
        .turn_reached(&key(), generation, SECOND / 10)
        .expect("shared result");
    let workspace = cache
        .turn_reached(&key(), generation, SECOND / 10)
        .expect("shared result");

    assert_eq!(names(global, RemotePluginScope::Global), vec!["plugin-000"]);
    assert_eq!(names(user, RemotePluginScope::User), vec!["plugin-001"]);
    assert_eq!(
        names(workspace, RemotePluginScope::Workspace),
        vec!["plugin-002"]
    );
}

#[test]
fn concurrent_failures_share_one_upstream_request() {
    let mut cache = RemoteInstalledPluginSnapshotCache::default();
    let generation = cache.generation();
    let global = cache.fetched(
        key("account_id"),
        generation,
        Err(failure("503 Service Unavailable")),
        0,
    );
    let user = cache
        .turn_reached(&key("account_id"), generation, SECOND - 1)
        .expect("shared result");
    let workspace = cache
        .lookup(&key("account_id"), generation, SECOND - 1)
        .expect("shared result");

    assert_eq!(
        global,
        Err(RemotePluginCatalogError::Request(
            "503 Service Unavailable".to_string()
        ))
    );
    for result in [user, workspace] {
        assert_eq!(
            result,
            Err(RemotePluginCatalogError::UnexpectedResponse(
                "503 Service Unavailable".to_string()
            ))
        );
    }
    assert!(installed_plugins_for_scope(global, RemotePluginScope::Global).is_err());
    assert!(cache
        .turn_reached(&key("account_id"), generation, SECOND)
        .is_none());
}

#[test]
fn invalidation_aborts_an_in_flight_snapshot() {
    let mut cache = RemoteInstalledPluginSnapshotCache::default();
    let generation = cache.generation();
    assert!(cache.turn_reached(&key("account_id"), generation, 0).is_none());
    assert!(!cache.invalidate());
    let result = cache.fetched(
        key("account_id"),
        generation,
        Ok(vec![installed_plugin(0, RemotePluginScope::Global)]),
        SECOND / 10,
    );

    assert_eq!(
        result,
        Err(RemotePluginCatalogError::UnexpectedResponse(
            "remote installed plugin snapshot was invalidated while loading".to_string()
        ))
    );
    assert_eq!(
        cache.turn_reached(&key("account_id"), generation, SECOND / 10),
        Some(Err(snapshot_invalidated_error()))
    );
    assert_eq!(cache.generation(), 1);
    assert!(cache
        .cached_result_for_key(&key("account_id"), SECOND / 10)
        .is_none());
}

#[test]
fn snapshots_expire_and_belong_to_one_identity() {
    let mut cache = RemoteInstalledPluginSnapshotCache::default();
    let stored = cache.fetched(key("account_id"), 0, Ok(Vec::new()), SECOND);
    assert_eq!(stored, Ok(std::sync::Arc::new(Vec::new())));

    assert!(cache.lookup(&key("account_id"), 0, 31 * SECOND - 1).is_some());
    assert!(cache.lookup(&key("account_id"), 0, 31 * SECOND).is_none());
    assert!(cache.lookup(&key("other"), 0, SECOND).is_none());
    assert_eq!(
        cache.lookup(&key("account_id"), 7, SECOND),
        Some(Err(snapshot_invalidated_error()))
    );
    assert!(cache.invalidate());
    assert!(cache.lookup(&key("account_id"), 1, SECOND).is_none());
}

#[test]
fn keys_ignore_trailing_slashes_of_the_base_url() {
    let key = key("account_id");
    assert_eq!(key.chatgpt_base_url, "https://chatgpt.com/backend-api");
    assert_eq!(key.product_sku, "codex");
    assert_eq!(key.account_id.as_deref(), Some("account_id"));
    assert_eq!(key.chatgpt_user_id.as_deref(), Some("user-1"));
    assert_eq!(key.plan_type.as_deref(), Some("pro"));
    assert_eq!(key.auth_mode, "chatgpt");
}

#[test]
fn repeated_or_empty_page_tokens_end_the_fetch() {
    let bad_token = RemotePluginCatalogError::UnexpectedResponse(
        "remote installed plugin pagination returned an empty or repeated next page token"
            .to_string(),
    );
    let (result, requests) = fetch(|request| InstalledPage {
        plugins: Vec::new(),
        next_page_token: Some(match request.page_token.as_deref() {
            None => "page-2".to_string(),
            Some("page-2") => "page-3".to_string(),
            _ => "page-2".to_string(),
        }),
    });
    assert_eq!(requests, 3);
    assert_eq!(result.unwrap_err(), bad_token);

    let (result, requests) = fetch(|_| InstalledPage {
        plugins: Vec::new(),
        next_page_token: Some(String::new()),
    });
    assert_eq!(requests, 1);
    assert_eq!(result.unwrap_err(), bad_token);
}

#[test]
fn scope_queries_keep_items_whole() {
    let mut plugin = installed_plugin(3, RemotePluginScope::User);
    plugin.disabled_skill_names = vec!["lint".to_string(), "deploy".to_string()];
    let snapshot = std::sync::Arc::new(vec![
        installed_plugin(2, RemotePluginScope::Global),
        plugin.clone(),
    ]);
    assert_eq!(
        installed_plugins_for_scope(Ok(snapshot), RemotePluginScope::User),
        Ok(vec![plugin])
    );
}

#[test]
fn errors_tell_what_they_carry() {
    assert_eq!(failure("503").message(), "503");
    assert_eq!(
        snapshot_invalidated_error().message(),
        "remote installed plugin snapshot was invalidated while loading"
    );
}

#[test]
fn a_closed_gate_is_an_unexpected_response() {
    assert_eq!(
        fetch_gate_closed_error(),
        RemotePluginCatalogError::UnexpectedResponse(
            "remote installed plugin snapshot fetch gate was closed".to_string()
        )
    );
}

fn config() -> RemotePluginServiceConfig {
    RemotePluginServiceConfig {
        chatgpt_base_url: "https://chatgpt.com/backend-api".to_string(),
    }
}

#[test]
fn waiting_callers_share_one_request() {
    let mut cache = RemoteInstalledPluginSnapshotCache::default();
    let mut waiting = Vec::new();
    for _ in 0..3 {
        let request = SnapshotRequest::new(&cache, &config(), &auth("account_id"));
        let phase = request.advance(SnapshotPhase::Lookup, &mut cache, SnapshotEvent::CacheReady, 0);
        assert!(matches!(phase, SnapshotPhase::AwaitTurn));
        waiting.push((request, phase));
    }
    let mut fetches = 0;
    for (request, phase) in waiting {
        let mut phase = request.advance(phase, &mut cache, SnapshotEvent::TurnGranted, SECOND);
        if matches!(phase, SnapshotPhase::Fetch) {
            fetches += 1;
            let plugins = vec![installed_plugin(0, RemotePluginScope::Global)];
            phase = request.advance(phase, &mut cache, SnapshotEvent::Fetched(Ok(plugins)), SECOND);
        }
        match phase {
            SnapshotPhase::Done(Ok(plugins)) => assert_eq!(plugins.len(), 1),
            _ => panic!("every caller should be served"),
        }
    }
    assert_eq!(fetches, 1);

    // Callers share the snapshot itself, not copies of it.
    let first = cache.cached_result_for_key(&key("account_id"), SECOND).unwrap().unwrap();
    let second = cache.cached_result_for_key(&key("account_id"), SECOND).unwrap().unwrap();
    assert!(std::sync::Arc::ptr_eq(&first, &second));

    let later = SnapshotRequest::new(&cache, &config(), &auth("account_id"));
    let phase = later.advance(
        SnapshotPhase::Lookup,
        &mut cache,
        SnapshotEvent::CacheReady,
        2 * SECOND,
    );
    assert!(matches!(phase, SnapshotPhase::Done(Ok(_))));
}

#[test]
fn results_of_an_ended_generation_are_dropped_at_any_time() {
    let mut cache = RemoteInstalledPluginSnapshotCache::default();
    let request = SnapshotRequest::new(&cache, &config(), &auth("account_id"));
    assert_eq!(request.generation(), 0);
    cache.invalidate();
    let phase = request.advance(
        SnapshotPhase::Fetch,
        &mut cache,
        SnapshotEvent::Fetched(Ok(Vec::new())),
        u64::MAX,
    );
    match phase {
        SnapshotPhase::Done(result) => assert_eq!(result, Err(snapshot_invalidated_error())),
        _ => panic!("the fetch is over"),
    }
    assert!(cache.lookup(&key("account_id"), 1, 0).is_none());
}

#[test]
fn callers_learn_of_invalidations_and_closed_gates() {
    let mut cache = RemoteInstalledPluginSnapshotCache::default();
    let request = SnapshotRequest::new(&cache, &config(), &auth("account_id"));
    let phase = request.advance(
        SnapshotPhase::AwaitTurn,
        &mut cache,
        SnapshotEvent::GateClosed,
        0,
    );
    match phase {
        SnapshotPhase::Done(result) => assert_eq!(result, Err(fetch_gate_closed_error())),
        _ => panic!("a closed gate ends the request"),
    }
    cache.invalidate();
    let phase = request.advance(
        SnapshotPhase::AwaitTurn,
        &mut cache,
        SnapshotEvent::TurnGranted,
        0,
    );
    match phase {
        SnapshotPhase::Done(result) => assert_eq!(result, Err(snapshot_invalidated_error())),
        _ => panic!("an invalidation ends the request"),
    }
}
