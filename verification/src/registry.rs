//! The webview registry: the single source of truth for which embedded
//! surfaces exist, which destination each one last loaded, and whether it
//! may be driven programmatically.
//!
//! Per surface identifier the lifecycle is `absent -> live -> absent`:
//! an entry is created on successful creation (always trusted, since
//! creation is reachable only from the host UI), its URL is updated in
//! place on successful navigation, and it is removed on destruction,
//! which is idempotent. Creating over an existing identifier replaces
//! the entry without error. The registry owns only the bookkeeping
//! record; the native rendering surface is owned by the host window and
//! may disappear independently, so callers re-check the native side at
//! the point of use.

use vstd::prelude::*;

use crate::text::str_eq;
use crate::url_policy::{
    check_url, parts_view, url_allowed, url_reject_message, UrlParts, UrlPartsView,
};
use crate::url_parse::url_parse_result;

verus! {

/// Ceiling on a script payload, in characters: larger scripts are
/// rejected before any lookup, to bound injection cost.
pub const MAX_SCRIPT_LEN: usize = 100000;

/// The bookkeeping record of one live surface.
#[derive(Debug, Clone)]
pub struct SurfaceRecord {
    /// The last successfully validated destination.
    pub url: UrlParts,
    /// Eligibility for script injection; set only at creation time.
    pub trusted: bool,
}

/// The mathematical value of a [`SurfaceRecord`].
pub struct SurfaceRecordView {
    pub url: UrlPartsView,
    pub trusted: bool,
}

impl View for SurfaceRecord {
    type V = SurfaceRecordView;

    open spec fn view(&self) -> SurfaceRecordView {
        SurfaceRecordView { url: self.url@, trusted: self.trusted }
    }
}

/// The registry, viewed as a map from surface identifier to record;
/// keys are unique and order carries no meaning.
pub struct Registry {
    entries: Vec<(String, SurfaceRecord)>,
}

/// The map an entry list stands for; a later entry for the same key
/// would shadow an earlier one, but well-formed registries have no
/// duplicate keys at all.
pub open spec fn entries_map(s: Seq<(String, SurfaceRecord)>) -> Map<Seq<char>, SurfaceRecordView>
    decreases s.len(),
{
    if s.len() == 0 {
        Map::empty()
    } else {
        entries_map(s.drop_last()).insert(s.last().0@, s.last().1@)
    }
}

/// No two entries share a key.
pub open spec fn unique_keys(s: Seq<(String, SurfaceRecord)>) -> bool {
    forall|i: int, j: int| 0 <= i < j < s.len() ==> s[i].0@ != s[j].0@
}

/// Some entry of `s` has key `k`.
pub open spec fn has_key(s: Seq<(String, SurfaceRecord)>, k: Seq<char>) -> bool {
    exists|i: int| 0 <= i < s.len() && s[i].0@ == k
}

proof fn lemma_entries_map_dom(s: Seq<(String, SurfaceRecord)>, k: Seq<char>)
    ensures
        entries_map(s).dom().contains(k) == has_key(s, k),
    decreases s.len(),
{
    if s.len() > 0 {
        lemma_entries_map_dom(s.drop_last(), k);
        if s.last().0@ == k {
            assert(s[s.len() - 1].0@ == k);
            assert(has_key(s, k));
        } else {
            if has_key(s, k) {
                let i = choose|i: int| 0 <= i < s.len() && s[i].0@ == k;
                assert(s.drop_last()[i] == s[i]);
                assert(has_key(s.drop_last(), k));
            }
            if has_key(s.drop_last(), k) {
                let i = choose|i: int| 0 <= i < s.drop_last().len() && s.drop_last()[i].0@ == k;
                assert(s[i].0@ == k);
                assert(has_key(s, k));
            }
        }
    }
}

proof fn lemma_entries_map_get(s: Seq<(String, SurfaceRecord)>, i: int)
    requires
        unique_keys(s),
        0 <= i < s.len(),
    ensures
        entries_map(s).dom().contains(s[i].0@),
        entries_map(s)[s[i].0@] == s[i].1@,
    decreases s.len(),
{
    if i < s.len() - 1 {
        assert(s.drop_last()[i] == s[i]);
        lemma_entries_map_get(s.drop_last(), i);
    }
}

proof fn lemma_entries_map_remove(s: Seq<(String, SurfaceRecord)>, i: int)
    requires
        unique_keys(s),
        0 <= i < s.len(),
    ensures
        unique_keys(s.remove(i)),
        entries_map(s.remove(i)) == entries_map(s).remove(s[i].0@),
    decreases s.len(),
{
    if i == s.len() - 1 {
        assert(s.remove(i) =~= s.drop_last());
        lemma_entries_map_dom(s.drop_last(), s[i].0@);
        assert(!has_key(s.drop_last(), s[i].0@));
        assert(entries_map(s.drop_last()).remove(s[i].0@) =~= entries_map(s.drop_last()));
        assert(entries_map(s).remove(s[i].0@) =~= entries_map(s.drop_last()));
    } else {
        assert(forall|a: int, b: int|
            0 <= a < b < s.drop_last().len() ==> s.drop_last()[a].0@ != s.drop_last()[b].0@);
        lemma_entries_map_remove(s.drop_last(), i);
        assert(s.remove(i).drop_last() =~= s.drop_last().remove(i));
        assert(s.remove(i).last() == s.last());
        assert(entries_map(s.remove(i)) == entries_map(s.drop_last().remove(i)).insert(
            s.last().0@,
            s.last().1@,
        ));
        assert(s[i].0@ != s.last().0@);
        assert(entries_map(s.drop_last()).remove(s[i].0@).insert(s.last().0@, s.last().1@)
            =~= entries_map(s.drop_last()).insert(s.last().0@, s.last().1@).remove(s[i].0@));
    }
}

impl View for Registry {
    type V = Map<Seq<char>, SurfaceRecordView>;

    closed spec fn view(&self) -> Map<Seq<char>, SurfaceRecordView> {
        entries_map(self.entries@)
    }
}

impl Registry {
    /// Well-formedness: no surface identifier occurs twice.
    pub closed spec fn wf(&self) -> bool {
        unique_keys(self.entries@)
    }

    /// An empty registry: no surface exists.
    pub fn new() -> (r: Registry)
        ensures
            r.wf(),
            r@ == Map::<Seq<char>, SurfaceRecordView>::empty(),
    {
        Registry { entries: Vec::new() }
    }

    /// The index of the entry for `id`, if one exists.
    fn find(&self, id: &str) -> (r: Option<usize>)
        ensures
            match r {
                Some(i) => 0 <= i < self.entries@.len() && self.entries@[i as int].0@ == id@,
                None => !has_key(self.entries@, id@),
            },
    {
        let n = self.entries.len();
        let mut k: usize = 0;
        while k < n
            invariant
                n == self.entries@.len(),
                0 <= k <= n,
                forall|j: int| 0 <= j < k ==> self.entries@[j].0@ != id@,
            decreases n - k,
        {
            if str_eq(self.entries[k].0.as_str(), id) {
                return Some(k);
            }
            k += 1;
        }
        None
    }

    /// Whether a record exists for `id`.
    pub fn contains_surface(&self, id: &str) -> (r: bool)
        requires
            self.wf(),
        ensures
            r == self@.dom().contains(id@),
    {
        proof {
            lemma_entries_map_dom(self.entries@, id@);
        }
        self.find(id).is_some()
    }

    /// The record for `id`, if one exists.
    pub fn get_record(&self, id: &str) -> (r: Option<&SurfaceRecord>)
        requires
            self.wf(),
        ensures
            match r {
                Some(rec) => self@.dom().contains(id@) && rec@ == self@[id@],
                None => !self@.dom().contains(id@),
            },
    {
        proof {
            lemma_entries_map_dom(self.entries@, id@);
        }
        match self.find(id) {
            Some(i) => {
                proof {
                    lemma_entries_map_get(self.entries@, i as int);
                }
                Some(&self.entries[i].1)
            },
            None => None,
        }
    }

    /// Removes the record for `id`, if any. Destruction is the one
    /// operation that is safe to call redundantly: it always succeeds,
    /// and destroying an absent surface changes nothing.
    pub fn destroy_surface(&mut self, id: &str)
        requires
            old(self).wf(),
        ensures
            final(self).wf(),
            final(self)@ == old(self)@.remove(id@),
    {
        match self.find(id) {
            Some(i) => {
                proof {
                    lemma_entries_map_remove(self.entries@, i as int);
                }
                let _ = self.entries.remove(i);
            },
            None => {
                proof {
                    lemma_entries_map_dom(self.entries@, id@);
                    assert(self@.remove(id@) =~= self@);
                }
            },
        }
    }

    /// Creates (or replaces) the record for `id` after validating the
    /// candidate destination: on any rejection the registry is left
    /// unchanged, and on success the new record holds the parsed URL
    /// and is trusted, creation being reachable only from the host UI.
    /// Returns the id, as creation reports it back to the caller.
    pub fn create_surface(&mut self, id: &str, url: &str) -> (r: Result<String, String>)
        requires
            old(self).wf(),
        ensures
            final(self).wf(),
            match url_parse_result(url@) {
                None => r is Err && final(self)@ == old(self)@,
                Some(t) => if url_allowed(parts_view(t)) {
                    &&& r matches Ok(out) && out@ == id@
                    &&& final(self)@ == old(self)@.insert(
                        id@,
                        SurfaceRecordView { url: parts_view(t), trusted: true },
                    )
                } else {
                    &&& r matches Err(m) && m@ == url_reject_message(parts_view(t))
                    &&& final(self)@ == old(self)@
                },
            },
    {
        let parts = match check_url(url) {
            Ok(p) => p,
            Err(e) => {
                return Err(e);
            },
        };
        self.destroy_surface(id);
        proof {
            lemma_entries_map_dom(self.entries@, id@);
        }
        let ghost pre_push = self.entries@;
        self.entries.push((id.to_owned(), SurfaceRecord { url: parts, trusted: true }));
        proof {
            assert(self.entries@.drop_last() =~= pre_push);
            assert(forall|a: int, b: int|
                0 <= a < b < self.entries@.len() ==> self.entries@[a].0@ != self.entries@[b].0@);
            assert(old(self)@.remove(id@).insert(
                id@,
                SurfaceRecordView { url: parts@, trusted: true },
            ) =~= old(self)@.insert(id@, SurfaceRecordView { url: parts@, trusted: true }));
        }
        Ok(id.to_owned())
    }

    /// Navigates the surface `id` to a new destination: the URL is
    /// validated first, and a rejection leaves the stored record — in
    /// particular its url — untouched. On success the record's url is
    /// replaced and its trust flag kept. A missing record reports the
    /// not-found condition.
    pub fn navigate_surface(&mut self, id: &str, url: &str) -> (r: Result<(), String>)
        requires
            old(self).wf(),
        ensures
            final(self).wf(),
            match url_parse_result(url@) {
                None => r is Err && final(self)@ == old(self)@,
                Some(t) => if !url_allowed(parts_view(t)) {
                    &&& r matches Err(m) && m@ == url_reject_message(parts_view(t))
                    &&& final(self)@ == old(self)@
                } else if old(self)@.dom().contains(id@) {
                    &&& r is Ok
                    &&& final(self)@ == old(self)@.insert(
                        id@,
                        SurfaceRecordView {
                            url: parts_view(t),
                            trusted: old(self)@[id@].trusted,
                        },
                    )
                } else {
                    &&& r matches Err(m) && m@ == "Webview not found"@
                    &&& final(self)@ == old(self)@
                },
            },
    {
        let parts = match check_url(url) {
            Ok(p) => p,
            Err(e) => {
                return Err(e);
            },
        };
        proof {
            lemma_entries_map_dom(self.entries@, id@);
        }
        match self.find(id) {
            Some(i) => {
                let trusted = self.entries[i].1.trusted;
                proof {
                    lemma_entries_map_get(self.entries@, i as int);
                    lemma_entries_map_remove(self.entries@, i as int);
                }
                let _ = self.entries.remove(i);
                proof {
                    lemma_entries_map_dom(self.entries@, id@);
                }
                let ghost pre_push = self.entries@;
                self.entries.push((id.to_owned(), SurfaceRecord { url: parts, trusted }));
                proof {
                    assert(self.entries@.drop_last() =~= pre_push);
                    assert(forall|a: int, b: int|
                        0 <= a < b < self.entries@.len() ==> self.entries@[a].0@
                            != self.entries@[b].0@);
                    assert(old(self)@.remove(id@).insert(
                        id@,
                        SurfaceRecordView { url: parts@, trusted },
                    ) =~= old(self)@.insert(id@, SurfaceRecordView { url: parts@, trusted }));
                }
                Ok(())
            },
            None => Err(String::from_str("Webview not found")),
        }
    }

    /// The script-execution gate. The size ceiling is checked before any
    /// lookup; past it, a script may run only against a record that
    /// exists and is trusted. A missing record and an untrusted record
    /// get the identical rejection, so a caller cannot learn from the
    /// message whether the identifier exists.
    pub fn authorize_script(&self, id: &str, script: &str) -> (r: Result<(), String>)
        requires
            self.wf(),
        ensures
            r is Ok <==> (script@.len() <= MAX_SCRIPT_LEN && self@.dom().contains(id@)
                && self@[id@].trusted),
            script@.len() > MAX_SCRIPT_LEN ==> (r matches Err(m) && m@ == "Script too large"@),
            (script@.len() <= MAX_SCRIPT_LEN && !(self@.dom().contains(id@)
                && self@[id@].trusted)) ==> (r matches Err(m) && m@
                == "Webview is not trusted for script execution"@),
    {
        if script.unicode_len() > MAX_SCRIPT_LEN {
            return Err(String::from_str("Script too large"));
        }
        proof {
            lemma_entries_map_dom(self.entries@, id@);
        }
        match self.find(id) {
            Some(i) => {
                proof {
                    lemma_entries_map_get(self.entries@, i as int);
                }
                if self.entries[i].1.trusted {
                    Ok(())
                } else {
                    Err(String::from_str("Webview is not trusted for script execution"))
                }
            },
            None => Err(String::from_str("Webview is not trusted for script execution")),
        }
    }

    /// The identifiers of every surface the registry knows, for the
    /// operations that sweep all surfaces (such as moving every native
    /// surface off-screen): exactly the registry's keys, each once.
    pub fn surface_ids(&self) -> (r: Vec<String>)
        requires
            self.wf(),
        ensures
            forall|i: int| 0 <= i < r@.len() ==> self@.dom().contains(r@[i]@),
            forall|k: Seq<char>|
                self@.dom().contains(k) ==> exists|i: int| 0 <= i < r@.len() && r@[i]@ == k,
            forall|i: int, j: int| 0 <= i < j < r@.len() ==> r@[i]@ != r@[j]@,
    {
        let n = self.entries.len();
        let mut out: Vec<String> = Vec::new();
        let mut k: usize = 0;
        while k < n
            invariant
                n == self.entries@.len(),
                0 <= k <= n,
                out@.len() == k,
                forall|j: int| 0 <= j < k ==> out@[j]@ == self.entries@[j].0@,
            decreases n - k,
        {
            out.push(self.entries[k].0.clone());
            k += 1;
        }
        proof {
            assert forall|i: int| 0 <= i < out@.len() implies self@.dom().contains(out@[i]@) by {
                lemma_entries_map_dom(self.entries@, out@[i]@);
            }
            assert forall|key: Seq<char>| self@.dom().contains(key) implies exists|i: int|
                0 <= i < out@.len() && out@[i]@ == key by {
                lemma_entries_map_dom(self.entries@, key);
                let i = choose|i: int| 0 <= i < self.entries@.len() && self.entries@[i].0@ == key;
                assert(out@[i]@ == key);
            }
        }
        out
    }
}

/// Law: creating a surface under an identifier that already has a record
/// replaces it without error — the registry afterwards is exactly what a
/// single creation with the newer record would give.
pub proof fn lemma_create_replaces(
    m: Map<Seq<char>, SurfaceRecordView>,
    id: Seq<char>,
    first: SurfaceRecordView,
    second: SurfaceRecordView,
)
    ensures
        m.insert(id, first).insert(id, second) == m.insert(id, second),
{
    assert(m.insert(id, first).insert(id, second) =~= m.insert(id, second));
}

/// Law: destruction is idempotent — destroying a surface twice leaves
/// the registry exactly as destroying it once does, and destruction
/// never fails.
pub proof fn lemma_destroy_idempotent(m: Map<Seq<char>, SurfaceRecordView>, id: Seq<char>)
    ensures
        m.remove(id).remove(id) == m.remove(id),
{
    assert(m.remove(id).remove(id) =~= m.remove(id));
}

} // verus!
