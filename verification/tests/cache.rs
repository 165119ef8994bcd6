use archbox::cache::CacheIndex;
use archbox::cache::CacheManager;
use archbox::package::Installation;
use archbox::package::Package;
use archbox::package::PackageMetadata;

fn sample_package(name: &str) -> Package {
    Package {
        name: name.to_string(),
        version: "2.1.0".to_string(),
        description: format!("{} description", name),
        long_description: None,
        categories: vec!["tools".to_string()],
        dependencies: vec![],
        installation: Installation::Pacman { packages: vec![name.to_string()], flags: None },
        post_install: None,
        metadata: PackageMetadata {
            author: None,
            homepage: None,
            repository: None,
            license: None,
            tags: None,
            updated: None,
            size: None,
        },
    }
}

fn fresh_cache(ttl_hours: u64) -> CacheManager {
    CacheManager::new("/tmp/cache".to_string(), 100, ttl_hours, 1_000_000)
}

#[test]
fn put_then_immediate_get_returns_the_package() {
    let mut cache = fresh_cache(24);
    let now = 1_000_000;
    cache.store_package(sample_package("ripgrep"), now);
    let hit = cache.get_package("ripgrep", now).expect("fresh entry is a hit");
    assert_eq!(hit.name, "ripgrep");
    assert_eq!(hit.version, "2.1.0");
}

#[test]
fn entry_expires_once_the_ttl_has_passed() {
    let mut cache = fresh_cache(24);
    let stored_at = 1_000_000;
    cache.store_package(sample_package("ripgrep"), stored_at);
    // one second past 24 hours
    let later = stored_at + 24 * 3600 + 1;
    assert!(cache.get_package("ripgrep", later).is_none());
    // the expired entry was evicted, so it no longer counts
    assert_eq!(cache.get_statistics().total_entries, 0);
}

#[test]
fn entry_just_inside_the_ttl_still_hits() {
    let mut cache = fresh_cache(24);
    let stored_at = 1_000_000;
    cache.store_package(sample_package("ripgrep"), stored_at);
    let almost = stored_at + 24 * 3600 - 1;
    assert!(cache.get_package("ripgrep", almost).is_some());
}

#[test]
fn reads_do_not_renew_the_cache_time() {
    let mut cache = fresh_cache(1);
    let stored_at = 1_000_000;
    cache.store_package(sample_package("ripgrep"), stored_at);
    // a hit half way through the window does not push expiry out
    assert!(cache.get_package("ripgrep", stored_at + 1800).is_some());
    assert!(cache.get_package("ripgrep", stored_at + 3600).is_none());
}

#[test]
fn miss_on_absent_name() {
    let mut cache = fresh_cache(24);
    assert!(cache.get_package("absent", 1_000_000).is_none());
}

#[test]
fn invalidate_removes_one_entry() {
    let mut cache = fresh_cache(24);
    let now = 1_000_000;
    cache.store_package(sample_package("a"), now);
    cache.store_package(sample_package("b"), now);
    cache.invalidate("a");
    assert!(cache.get_package("a", now).is_none());
    assert!(cache.get_package("b", now).is_some());
}

#[test]
fn clear_removes_everything() {
    let mut cache = fresh_cache(24);
    let now = 1_000_000;
    cache.store_package(sample_package("a"), now);
    cache.store_package(sample_package("b"), now);
    cache.clear();
    assert_eq!(cache.get_statistics().total_entries, 0);
    assert!(cache.get_package("a", now).is_none());
}

#[test]
fn storing_again_replaces_the_entry() {
    let mut cache = fresh_cache(24);
    let now = 1_000_000;
    cache.store_package(sample_package("a"), now);
    let mut newer = sample_package("a");
    newer.version = "3.0.0".to_string();
    cache.store_package(newer, now + 10);
    let hit = cache.get_package("a", now + 20).expect("hit");
    assert_eq!(hit.version, "3.0.0");
    assert_eq!(cache.get_statistics().total_entries, 1);
}

#[test]
fn statistics_count_accesses_and_entries() {
    let mut cache = fresh_cache(24);
    let now = 1_000_000;
    cache.store_package(sample_package("a"), now);
    cache.store_package(sample_package("b"), now);
    // stored entries start with one access each; one hit adds one more
    cache.get_package("a", now + 1);
    let stats = cache.get_statistics();
    assert_eq!(stats.total_entries, 2);
    assert_eq!(stats.total_access_count, 3);
    // 3 * 100 / (3 + 2)
    assert_eq!(stats.hit_rate_percent, 60);
    assert!(stats.estimated_size_bytes > 0);
}

#[test]
fn opening_over_an_index_sweeps_expired_entries() {
    let mut seed = fresh_cache(24);
    let stored_at = 1_000_000;
    seed.store_package(sample_package("old"), stored_at);
    seed.store_package(sample_package("new"), stored_at + 50 * 3600);
    // rebuild an index like one loaded from disk
    let mut index = CacheIndex::new(stored_at);
    index.entries = seed_entries(&mut seed, stored_at + 50 * 3600);
    let mut reopened = CacheManager::from_index(
        "/tmp/cache".to_string(),
        index,
        100,
        24,
        stored_at + 50 * 3600,
    );
    assert!(reopened.get_package("old", stored_at + 50 * 3600).is_none());
    assert!(reopened.get_package("new", stored_at + 50 * 3600).is_some());
}

fn seed_entries(
    seed: &mut CacheManager,
    now: i64,
) -> Vec<archbox::cache::CacheEntry> {
    // materialize entries equivalent to what the seed cache holds
    let mut entries = Vec::new();
    if seed.get_package("old", now - 50 * 3600).is_some() {
        entries.push(archbox::cache::CacheEntry {
            package: sample_package("old"),
            cached_at: now - 50 * 3600,
            access_count: 1,
            last_accessed: now - 50 * 3600,
        });
    }
    if seed.get_package("new", now).is_some() {
        entries.push(archbox::cache::CacheEntry {
            package: sample_package("new"),
            cached_at: now,
            access_count: 1,
            last_accessed: now,
        });
    }
    entries
}
