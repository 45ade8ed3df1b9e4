use crate::text::{chars_of, push_char, push_text};
use vstd::prelude::*;
use vstd::string::*;

verus! {

/// Whether `c` may stand in a file name as it is: an ASCII letter or digit,
/// `-` or `_`.
pub open spec fn is_safe_char(c: char) -> bool {
    ('a' <= c <= 'z') || ('A' <= c <= 'Z') || ('0' <= c <= '9') || c == '-' || c == '_'
}

/// `c` where it is safe, `_` in its place else.
pub open spec fn safe_char(c: char) -> char {
    if is_safe_char(c) {
        c
    } else {
        '_'
    }
}

/// `s` with each character that is not safe replaced by `_`.
pub open spec fn sanitized(s: Seq<char>) -> Seq<char> {
    s.map_values(|c: char| safe_char(c))
}

/// The first 64 characters of [`sanitized`].
pub open spec fn sanitized_key(s: Seq<char>) -> Seq<char> {
    if s.len() <= 64 {
        sanitized(s)
    } else {
        sanitized(s.subrange(0, 64))
    }
}

fn to_safe_char(c: char) -> (out: char)
    ensures
        out == safe_char(c),
{
    if ('a' <= c && c <= 'z') || ('A' <= c && c <= 'Z') || ('0' <= c && c <= '9') || c == '-' || c
        == '_' {
        c
    } else {
        '_'
    }
}

/// The first `limit` characters of `chars`, each made safe.
fn sanitize_prefix(chars: &Vec<char>, limit: usize) -> (out: String)
    requires
        limit <= chars@.len(),
    ensures
        out@ == sanitized(chars@.subrange(0, limit as int)),
{
    let mut out = String::new();
    let mut i: usize = 0;
    while i < limit
        invariant
            i <= limit <= chars@.len(),
            out@ == sanitized(chars@.subrange(0, i as int)),
        decreases limit - i,
    {
        push_char(&mut out, to_safe_char(chars[i]));
        assert(out@ =~= sanitized(chars@.subrange(0, i + 1)));
        i += 1;
    }
    out
}

/// The identifier of an app made fit for a file name: every character but
/// ASCII letters, digits, `-` and `_` becomes `_`.
pub fn sanitize_app_id(app_id: &str) -> (out: String)
    ensures
        out@ == sanitized(app_id@),
        out@.len() == app_id@.len(),
{
    let chars = chars_of(app_id);
    assert(chars@.subrange(0, chars@.len() as int) =~= chars@);
    sanitize_prefix(&chars, chars.len())
}

/// A storage key made fit for a file name: as [`sanitize_app_id`], and cut
/// to 64 characters.
pub fn sanitize_key(key: &str) -> (out: String)
    ensures
        out@ == sanitized_key(key@),
        out@.len() <= 64,
{
    let chars = chars_of(key);
    if chars.len() <= 64 {
        assert(chars@.subrange(0, chars@.len() as int) =~= chars@);
        sanitize_prefix(&chars, chars.len())
    } else {
        sanitize_prefix(&chars, 64)
    }
}

/// One stored value: the app that owns it, its key and the value.
pub struct StorageItem {
    pub app_id: String,
    pub key: String,
    pub value: String,
}

/// What is stored, as a mathematical value: from app and key to the value.
pub type StorageModel = Map<(Seq<char>, Seq<char>), Seq<char>>;

/// Whether `item` is stored for `app_id` under `key`.
pub open spec fn item_is(item: StorageItem, app_id: Seq<char>, key: Seq<char>) -> bool {
    item.app_id@ == app_id && item.key@ == key
}

/// The value of the last of `items` that is stored for `app_id` under `key`.
pub open spec fn lookup(items: Seq<StorageItem>, app_id: Seq<char>, key: Seq<char>) -> Option<
    Seq<char>,
>
    decreases items.len(),
{
    if items.len() == 0 {
        None
    } else if item_is(items.last(), app_id, key) {
        Some(items.last().value@)
    } else {
        lookup(items.drop_last(), app_id, key)
    }
}

/// Whether one of `texts` is `wanted`.
pub open spec fn has_text(texts: Seq<String>, wanted: Seq<char>) -> bool {
    exists|i: int| 0 <= i < texts.len() && (#[trigger] texts[i])@ == wanted
}

/// Whether no two of `texts` are the same.
pub open spec fn all_distinct(texts: Seq<String>) -> bool {
    forall|i: int, j: int| 0 <= i < j < texts.len() ==> (#[trigger] texts[i])@ != (#[trigger] texts[j])@
}

/// A value is found exactly where some item is stored for that app under
/// that key.
pub proof fn lemma_lookup_finds(items: Seq<StorageItem>, app_id: Seq<char>, key: Seq<char>)
    ensures
        lookup(items, app_id, key) is Some <==> exists|i: int|
            0 <= i < items.len() && item_is(#[trigger] items[i], app_id, key),
    decreases items.len(),
{
    if items.len() > 0 {
        let front = items.drop_last();
        lemma_lookup_finds(front, app_id, key);
        if item_is(items.last(), app_id, key) {
            assert(item_is(items[items.len() - 1], app_id, key));
        } else if lookup(front, app_id, key) is Some {
            let i = choose|i: int| 0 <= i < front.len() && item_is(#[trigger] front[i], app_id, key);
            assert(item_is(items[i], app_id, key));
        } else {
            assert forall|i: int| 0 <= i < items.len() implies !item_is(
                #[trigger] items[i],
                app_id,
                key,
            ) by {
                if i < front.len() {
                    assert(front[i] == items[i]);
                }
            }
        }
    }
}

/// Storage for the apps, each app with keys of its own, kept in memory.
pub struct AppStorage {
    items: Vec<StorageItem>,
}

impl View for AppStorage {
    type V = StorageModel;

    closed spec fn view(&self) -> StorageModel {
        Map::new(
            |p: (Seq<char>, Seq<char>)| lookup(self.items@, p.0, p.1) is Some,
            |p: (Seq<char>, Seq<char>)| lookup(self.items@, p.0, p.1)->0,
        )
    }
}

/// What is stored once everything of the app `app_id` is taken out.
pub open spec fn without_app(stored: StorageModel, app_id: Seq<char>) -> StorageModel {
    Map::new(
        |p: (Seq<char>, Seq<char>)| stored.contains_key(p) && p.0 != app_id,
        |p: (Seq<char>, Seq<char>)| stored[p],
    )
}

impl AppStorage {
    /// A storage that holds nothing.
    pub fn new() -> (storage: AppStorage)
        ensures
            storage@ == Map::<(Seq<char>, Seq<char>), Seq<char>>::empty(),
    {
        let storage = AppStorage { items: Vec::new() };
        assert(storage@ =~= Map::empty());
        storage
    }

    /// The items but those of `app_id` under `key`; with no key, but all
    /// those of `app_id`.
    fn items_without(&self, app_id: &str, key: Option<&str>) -> (kept: Vec<StorageItem>)
        ensures
            forall|a: Seq<char>, k: Seq<char>| #[trigger]
                lookup(kept@, a, k) == if a == app_id@ && (key is None || key->0@ == k) {
                    None
                } else {
                    lookup(self.items@, a, k)
                },
    {
        let wanted_app = String::from_str(app_id);
        let wanted_key = match key {
            Some(k) => Some(String::from_str(k)),
            None => None,
        };
        let mut kept: Vec<StorageItem> = Vec::new();
        let mut i: usize = 0;
        while i < self.items.len()
            invariant
                i <= self.items@.len(),
                wanted_app@ == app_id@,
                wanted_key is Some <==> key is Some,
                key is Some ==> wanted_key->0@ == key->0@,
                forall|a: Seq<char>, k: Seq<char>| #[trigger]
                    lookup(kept@, a, k) == if a == app_id@ && (key is None || key->0@ == k) {
                        None
                    } else {
                        lookup(self.items@.subrange(0, i as int), a, k)
                    },
            decreases self.items@.len() - i,
        {
            let item = &self.items[i];
            let same_key = match &wanted_key {
                Some(k) => item.key == *k,
                None => true,
            };
            let drop = item.app_id == wanted_app && same_key;
            let ghost before = kept@;
            let ghost seen = self.items@.subrange(0, i as int);
            let ghost next = self.items@.subrange(0, i + 1);
            assert(next.drop_last() =~= seen);
            assert(next.last() == *item);
            if !drop {
                kept.push(
                    StorageItem {
                        app_id: item.app_id.clone(),
                        key: item.key.clone(),
                        value: item.value.clone(),
                    },
                );
                assert(kept@.drop_last() =~= before);
            }
            assert forall|a: Seq<char>, k: Seq<char>| #[trigger]
                lookup(kept@, a, k) == if a == app_id@ && (key is None || key->0@ == k) {
                    None
                } else {
                    lookup(next, a, k)
                } by {
                assert(lookup(before, a, k) == if a == app_id@ && (key is None || key->0@ == k) {
                    None
                } else {
                    lookup(seen, a, k)
                });
            }
            i += 1;
        }
        assert(self.items@.subrange(0, self.items@.len() as int) =~= self.items@);
        kept
    }
}

/// The value that the app `app_id` has stored under `key`.
pub fn storage_get(storage: &AppStorage, app_id: &str, key: &str) -> (found: Option<String>)
    ensures
        match found {
            Some(value) => storage@.contains_key((app_id@, key@)) && storage@[(app_id@, key@)]
                == value@,
            None => !storage@.contains_key((app_id@, key@)),
        },
{
    let wanted_app = String::from_str(app_id);
    let wanted_key = String::from_str(key);
    let mut i: usize = storage.items.len();
    assert(storage.items@.subrange(0, i as int) =~= storage.items@);
    while i > 0
        invariant
            i <= storage.items@.len(),
            wanted_app@ == app_id@,
            wanted_key@ == key@,
            lookup(storage.items@, app_id@, key@) == lookup(
                storage.items@.subrange(0, i as int),
                app_id@,
                key@,
            ),
        decreases i,
    {
        let item = &storage.items[i - 1];
        let ghost seen = storage.items@.subrange(0, i as int);
        assert(seen.last() == *item);
        assert(seen.drop_last() =~= storage.items@.subrange(0, i - 1));
        if item.app_id == wanted_app && item.key == wanted_key {
            return Some(item.value.clone());
        }
        i -= 1;
    }
    assert(storage.items@.subrange(0, 0) =~= Seq::<StorageItem>::empty());
    None
}

/// Stores `value` for the app `app_id` under `key`, in the place of what was
/// there.
pub fn storage_set(storage: &mut AppStorage, app_id: &str, key: &str, value: &str) -> (result:
    Result<(), String>)
    ensures
        result is Ok,
        final(storage)@ == old(storage)@.insert((app_id@, key@), value@),
{
    let mut kept = storage.items_without(app_id, Some(key));
    let ghost before = kept@;
    kept.push(
        StorageItem {
            app_id: String::from_str(app_id),
            key: String::from_str(key),
            value: String::from_str(value),
        },
    );
    assert(kept@.drop_last() =~= before);
    storage.items = kept;
    assert(storage@ =~= old(storage)@.insert((app_id@, key@), value@)) by {
        assert forall|p: (Seq<char>, Seq<char>)|
            lookup(storage.items@, p.0, p.1) == (if p == (app_id@, key@) {
                Some(value@)
            } else {
                lookup(old(storage).items@, p.0, p.1)
            }) by {
            assert(lookup(before, p.0, p.1) == if p.0 == app_id@ && p.1 == key@ {
                None
            } else {
                lookup(old(storage).items@, p.0, p.1)
            });
        }
    }
    Ok(())
}

/// Takes out what the app `app_id` has stored under `key`, if anything.
pub fn storage_delete(storage: &mut AppStorage, app_id: &str, key: &str) -> (result: Result<
    (),
    String,
>)
    ensures
        result is Ok,
        final(storage)@ == old(storage)@.remove((app_id@, key@)),
{
    let kept = storage.items_without(app_id, Some(key));
    storage.items = kept;
    assert(storage@ =~= old(storage)@.remove((app_id@, key@))) by {
        assert forall|p: (Seq<char>, Seq<char>)|
            lookup(storage.items@, p.0, p.1) == (if p == (app_id@, key@) {
                None
            } else {
                lookup(old(storage).items@, p.0, p.1)
            }) by {}
    }
    Ok(())
}

/// The keys under which the app `app_id` has stored something, each once.
pub fn storage_keys(storage: &AppStorage, app_id: &str) -> (keys: Vec<String>)
    ensures
        all_distinct(keys@),
        forall|key: Seq<char>| has_text(keys@, key) <==> storage@.contains_key((app_id@, key)),
{
    let wanted_app = String::from_str(app_id);
    let mut keys: Vec<String> = Vec::new();
    let mut i: usize = 0;
    while i < storage.items.len()
        invariant
            i <= storage.items@.len(),
            wanted_app@ == app_id@,
            all_distinct(keys@),
            forall|key: Seq<char>|
                has_text(keys@, key) <==> exists|j: int|
                    0 <= j < i && item_is(#[trigger] storage.items@[j], app_id@, key),
        decreases storage.items@.len() - i,
    {
        let item = &storage.items[i];
        let ghost before = keys@;
        if item.app_id == wanted_app {
            let mut known = false;
            let mut n: usize = 0;
            while n < keys.len()
                invariant
                    n <= keys@.len(),
                    known <==> exists|m: int| 0 <= m < n && (#[trigger] keys@[m])@ == item.key@,
                decreases keys@.len() - n,
            {
                if keys[n] == item.key {
                    known = true;
                }
                n += 1;
            }
            assert(known <==> has_text(keys@, item.key@));
            if !known {
                keys.push(item.key.clone());
                assert(keys@.last()@ == item.key@);
                assert forall|a: int, b: int| 0 <= a < b < keys@.len() implies (#[trigger] keys@[a])@
                    != (#[trigger] keys@[b])@ by {
                    if b == keys@.len() - 1 {
                        assert(before[a]@ != item.key@);
                    } else {
                        assert(before[a]@ != before[b]@);
                    }
                }
            }
        }
        assert forall|key: Seq<char>|
            has_text(keys@, key) <==> exists|j: int|
                0 <= j < i + 1 && item_is(#[trigger] storage.items@[j], app_id@, key) by {
            let old_side = exists|j: int|
                0 <= j < i && item_is(#[trigger] storage.items@[j], app_id@, key);
            assert(has_text(before, key) <==> old_side);
            if has_text(keys@, key) {
                let m = choose|m: int| 0 <= m < keys@.len() && (#[trigger] keys@[m])@ == key;
                if m < before.len() {
                    assert(before[m]@ == key);
                    assert(has_text(before, key));
                    let j = choose|j: int|
                        0 <= j < i && item_is(#[trigger] storage.items@[j], app_id@, key);
                    assert(item_is(storage.items@[j], app_id@, key));
                } else {
                    assert(item_is(storage.items@[i as int], app_id@, key));
                }
            }
            if exists|j: int|
                0 <= j < i + 1 && item_is(#[trigger] storage.items@[j], app_id@, key) {
                let j = choose|j: int|
                    0 <= j < i + 1 && item_is(#[trigger] storage.items@[j], app_id@, key);
                if j < i {
                    assert(item_is(storage.items@[j], app_id@, key));
                    assert(has_text(before, key));
                    let m = choose|m: int| 0 <= m < before.len() && (#[trigger] before[m])@ == key;
                    assert(keys@[m]@ == key);
                } else {
                    if has_text(before, key) {
                        let m = choose|m: int|
                            0 <= m < before.len() && (#[trigger] before[m])@ == key;
                        assert(keys@[m]@ == key);
                    } else {
                        assert(keys@[keys@.len() - 1]@ == key);
                    }
                }
            }
        }
        i += 1;
    }
    assert forall|key: Seq<char>| has_text(keys@, key) <==> storage@.contains_key(
        (app_id@, key),
    ) by {
        lemma_lookup_finds(storage.items@, app_id@, key);
    }
    keys
}

/// Takes out everything that the app `app_id` has stored.
pub fn storage_clear(storage: &mut AppStorage, app_id: &str) -> (result: Result<(), String>)
    ensures
        result is Ok,
        final(storage)@ == without_app(old(storage)@, app_id@),
{
    let kept = storage.items_without(app_id, None);
    storage.items = kept;
    assert(storage@ =~= without_app(old(storage)@, app_id@)) by {
        assert forall|p: (Seq<char>, Seq<char>)|
            lookup(storage.items@, p.0, p.1) == (if p.0 == app_id@ {
                None
            } else {
                lookup(old(storage).items@, p.0, p.1)
            }) by {}
    }
    Ok(())
}

/// The text of the script in front of the app's identifier.
pub const SDK_HEAD: &'static str = r#"<script>
(function() {
    'use strict';

    const APP_ID = '"#;

/// The text of the script behind the app's identifier.
pub const SDK_TAIL: &'static str = r#"';
    const STORAGE_PREFIX = 'blackbird_app_' + APP_ID + '_';

    // Blackbird API
    window.blackbird = {
        // Storage API - persistent, app-isolated storage via localStorage
        storage: {
            get(key) {
                try {
                    const raw = localStorage.getItem(STORAGE_PREFIX + key);
                    if (raw === null) return null;
                    try {
                        return JSON.parse(raw);
                    } catch {
                        return raw;
                    }
                } catch (e) {
                    console.error('[Blackbird] Storage get error:', e);
                    return null;
                }
            },

            set(key, value) {
                try {
                    const serialized = typeof value === 'string' ? value : JSON.stringify(value);
                    localStorage.setItem(STORAGE_PREFIX + key, serialized);
                } catch (e) {
                    console.error('[Blackbird] Storage set error:', e);
                    throw e;
                }
            },

            delete(key) {
                try {
                    localStorage.removeItem(STORAGE_PREFIX + key);
                } catch (e) {
                    console.error('[Blackbird] Storage delete error:', e);
                }
            },

            keys() {
                try {
                    const keys = [];
                    for (let i = 0; i < localStorage.length; i++) {
                        const key = localStorage.key(i);
                        if (key && key.startsWith(STORAGE_PREFIX)) {
                            keys.push(key.slice(STORAGE_PREFIX.length));
                        }
                    }
                    return keys;
                } catch (e) {
                    console.error('[Blackbird] Storage keys error:', e);
                    return [];
                }
            },

            clear() {
                try {
                    const keysToRemove = [];
                    for (let i = 0; i < localStorage.length; i++) {
                        const key = localStorage.key(i);
                        if (key && key.startsWith(STORAGE_PREFIX)) {
                            keysToRemove.push(key);
                        }
                    }
                    keysToRemove.forEach(key => localStorage.removeItem(key));
                } catch (e) {
                    console.error('[Blackbird] Storage clear error:', e);
                }
            }
        },

        // AI API - not yet available
        // Will be implemented in a future update
        ai: {
            async chat(prompt) {
                console.warn('[Blackbird] AI API not yet available');
                return 'AI API coming soon!';
            },

            async chatWithHistory(prompt, history) {
                console.warn('[Blackbird] AI API not yet available');
                return 'AI API coming soon!';
            }
        },

        // App metadata
        app: {
            id: APP_ID
        }
    };

    // Signal SDK is ready
    window.dispatchEvent(new Event('blackbird:ready'));
    console.log('[Blackbird] SDK loaded for app:', APP_ID);
})();
</script>"#;

/// The script that is put into every app: it defines `window.blackbird`,
/// with storage kept under a prefix made of the app's identifier.
pub open spec fn sdk_script(app_id: Seq<char>) -> Seq<char> {
    SDK_HEAD@ + app_id + SDK_TAIL@
}

/// The script for the app `app_id`: one `<script>` element, with the
/// identifier written into it as it is.
pub fn get_sdk_script(app_id: &str) -> (script: String)
    ensures
        script@ == sdk_script(app_id@),
{
    let mut script = String::from_str(SDK_HEAD);
    push_text(&mut script, app_id);
    push_text(&mut script, SDK_TAIL);
    script
}

} // verus!
