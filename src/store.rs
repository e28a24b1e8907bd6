use vstd::prelude::*;
use crate::model::{HostsProfile, HostsError, ProfileView, profile_views};

verus! {

/// No two profiles share an id.
pub open spec fn ids_unique(s: Seq<ProfileView>) -> bool {
    forall|i: int, j: int|
        0 <= i < s.len() && 0 <= j < s.len() && i != j ==> s[i].id != s[j].id
}

/// Some profile has the id.
pub open spec fn has_id(s: Seq<ProfileView>, id: Seq<char>) -> bool {
    exists|i: int| 0 <= i < s.len() && s[i].id == id
}

/// The position of a profile with the id (meaningful where `has_id` holds).
pub open spec fn index_of(s: Seq<ProfileView>, id: Seq<char>) -> int {
    choose|i: int| 0 <= i < s.len() && s[i].id == id
}

/// The collection after saving `p`: it replaces the profile with its id, or is
/// appended.
pub open spec fn upsert(s: Seq<ProfileView>, p: ProfileView) -> Seq<ProfileView> {
    if has_id(s, p.id) {
        s.update(index_of(s, p.id), p)
    } else {
        s.push(p)
    }
}

/// The collection without the profile that has the id.
pub open spec fn without_id(s: Seq<ProfileView>, id: Seq<char>) -> Seq<ProfileView> {
    s.remove(index_of(s, id))
}

/// The collection after saving each imported profile in turn.
pub open spec fn merge_all(s: Seq<ProfileView>, imported: Seq<ProfileView>) -> Seq<ProfileView>
    decreases imported.len(),
{
    if imported.len() == 0 {
        s
    } else {
        upsert(merge_all(s, imported.drop_last()), imported.last())
    }
}

/// Where ids are unique, the profile found at a position is the one `index_of` names.
pub proof fn lemma_index_of_unique(s: Seq<ProfileView>, i: int)
    requires
        ids_unique(s),
        0 <= i < s.len(),
    ensures
        has_id(s, s[i].id),
        index_of(s, s[i].id) == i,
{
}

/// Saving keeps ids unique.
pub proof fn lemma_upsert_unique(s: Seq<ProfileView>, p: ProfileView)
    requires
        ids_unique(s),
    ensures
        ids_unique(upsert(s, p)),
        has_id(upsert(s, p), p.id),
{
    if has_id(s, p.id) {
        let k = index_of(s, p.id);
        assert(upsert(s, p)[k] == p);
    } else {
        assert(upsert(s, p)[s.len() as int] == p);
    }
}

/// Saving an unchanged profile a second time leaves the collection exactly as
/// the first save left it.
pub proof fn lemma_save_idempotent(s: Seq<ProfileView>, p: ProfileView)
    requires
        ids_unique(s),
    ensures
        upsert(upsert(s, p), p) == upsert(s, p),
{
    let t = upsert(s, p);
    lemma_upsert_unique(s, p);
    let m = if has_id(s, p.id) {
        index_of(s, p.id)
    } else {
        s.len() as int
    };
    assert(t[m] == p);
    lemma_index_of_unique(t, m);
    assert(t.update(m, p) =~= t);
}

/// Once the profile with an id is deleted, no profile has that id: a later
/// apply of it fails with not-found.
pub proof fn lemma_delete_then_absent(s: Seq<ProfileView>, id: Seq<char>)
    requires
        ids_unique(s),
        has_id(s, id),
    ensures
        !has_id(without_id(s, id), id),
{
    let k = index_of(s, id);
    let t = without_id(s, id);
    if has_id(t, id) {
        let j = choose|j: int| 0 <= j < t.len() && t[j].id == id;
        let j0 = if j < k { j } else { j + 1 };
        assert(t[j] == s[j0]);
    }
}

/// The profile collection, mirrored in memory; ids are kept unique.
pub struct ProfileStore {
    profiles: Vec<HostsProfile>,
}

impl View for ProfileStore {
    type V = Seq<ProfileView>;

    closed spec fn view(&self) -> Seq<ProfileView> {
        profile_views(self.profiles@)
    }
}

impl ProfileStore {
    pub open spec fn wf(&self) -> bool {
        ids_unique(self@)
    }

    /// An empty store: nothing is cached yet.
    pub fn new() -> (r: ProfileStore)
        ensures
            r@ == Seq::<ProfileView>::empty(),
            r.wf(),
    {
        let r = ProfileStore { profiles: Vec::new() };
        assert(r@ =~= Seq::<ProfileView>::empty());
        r
    }

    /// Whether the cache holds profiles; an empty cache is read from disk first.
    pub fn is_warm(&self) -> (r: bool)
        ensures
            r == (self@.len() > 0),
    {
        self.profiles.len() > 0
    }

    /// The cached profiles, in order.
    pub fn get_profiles(&self) -> (r: &Vec<HostsProfile>)
        ensures
            profile_views(r@) == self@,
    {
        &self.profiles
    }

    /// The position of the profile with the id, if any.
    pub fn position(&self, id: &String) -> (r: Option<usize>)
        requires
            self.wf(),
        ensures
            r is None <==> !has_id(self@, id@),
            r matches Some(i) ==> i < self@.len() && self@[i as int].id == id@ && i == index_of(
                self@,
                id@,
            ),
    {
        let mut i: usize = 0;
        while i < self.profiles.len()
            invariant
                i <= self.profiles@.len(),
                self.wf(),
                forall|k: int| 0 <= k < i ==> self.profiles@[k].id@ != id@,
            decreases self.profiles.len() - i,
        {
            if self.profiles[i].id == *id {
                proof {
                    lemma_index_of_unique(self@, i as int);
                }
                return Some(i);
            }
            i = i + 1;
        }
        None
    }

    /// Fills the cache from a loaded document; a document that repeats an id
    /// is malformed and leaves the store as it was.
    pub fn load(&mut self, doc: Vec<HostsProfile>) -> (r: Result<(), HostsError>)
        ensures
            r is Ok <==> ids_unique(profile_views(doc@)),
            r is Ok ==> final(self)@ == profile_views(doc@),
            r matches Err(e) ==> e is Malformed && final(self)@ == old(self)@,
    {
        let n = doc.len();
        let mut i: usize = 0;
        while i < n
            invariant
                n == doc@.len(),
                i <= n,
                forall|a: int, b: int| 0 <= a < i && 0 <= b < n && a != b ==> doc@[a].id@ != doc@[b].id@,
            decreases n - i,
        {
            let mut j: usize = 0;
            while j < n
                invariant
                    n == doc@.len(),
                    i < n,
                    j <= n,
                    forall|a: int, b: int| 0 <= a < i && 0 <= b < n && a != b ==> doc@[a].id@ != doc@[b].id@,
                    forall|b: int| 0 <= b < j && i != b ==> doc@[i as int].id@ != doc@[b].id@,
                decreases n - j,
            {
                if i != j && doc[i].id == doc[j].id {
                    assert(profile_views(doc@)[i as int].id == profile_views(doc@)[j as int].id);
                    return Err(HostsError::Malformed(String::from_str("profile ids repeat")));
                }
                j = j + 1;
            }
            i = i + 1;
        }
        assert(ids_unique(profile_views(doc@)));
        self.profiles = doc;
        Ok(())
    }

    /// Saves a profile: it replaces the one with its id, or is appended.
    pub fn save_profile(&mut self, profile: HostsProfile)
        requires
            old(self).wf(),
        ensures
            final(self)@ == upsert(old(self)@, profile@),
            final(self).wf(),
    {
        proof {
            lemma_upsert_unique(self@, profile@);
        }
        let ghost pv = profile@;
        match self.position(&profile.id) {
            Some(i) => {
                self.profiles.set(i, profile);
                assert(self@ =~= upsert(old(self)@, pv));
            },
            None => {
                self.profiles.push(profile);
                assert(self@ =~= upsert(old(self)@, pv));
            },
        }
    }

    /// Removes the profile with the id; fails with not-found, the store
    /// untouched, where none has it.
    pub fn delete_profile(&mut self, profile_id: &String) -> (r: Result<(), HostsError>)
        requires
            old(self).wf(),
        ensures
            r is Ok <==> has_id(old(self)@, profile_id@),
            r is Ok ==> final(self)@ == without_id(old(self)@, profile_id@),
            r matches Err(e) ==> (e matches HostsError::NotFound(m) && m@ == "Profile not found"@)
                && final(self)@ == old(self)@,
            final(self).wf(),
    {
        match self.position(profile_id) {
            Some(i) => {
                self.profiles.remove(i);
                assert(self@ =~= without_id(old(self)@, profile_id@));
                assert(ids_unique(self@)) by {
                    assert forall|a: int, b: int|
                        0 <= a < self@.len() && 0 <= b < self@.len() && a != b implies self@[a].id
                        != self@[b].id by {
                        let a0 = if a < i { a } else { a + 1 };
                        let b0 = if b < i { b } else { b + 1 };
                        assert(self@[a] == old(self)@[a0]);
                        assert(self@[b] == old(self)@[b0]);
                    }
                }
                Ok(())
            },
            None => Err(HostsError::NotFound(String::from_str("Profile not found"))),
        }
    }

    /// Merges imported profiles in order, each replacing the one with its id
    /// or appended, and hands the imported collection back.
    pub fn import_profiles(&mut self, imported: Vec<HostsProfile>) -> (r: Vec<HostsProfile>)
        requires
            old(self).wf(),
        ensures
            final(self)@ == merge_all(old(self)@, profile_views(imported@)),
            final(self).wf(),
            r@ == imported@,
    {
        let ghost start = self@;
        let mut i: usize = 0;
        let ghost iv = profile_views(imported@);
        assert(iv.take(0) =~= seq![]);
        while i < imported.len()
            invariant
                i <= imported@.len(),
                iv == profile_views(imported@),
                self.wf(),
                self@ == merge_all(start, iv.take(i as int)),
            decreases imported.len() - i,
        {
            assert(iv.take(i + 1).drop_last() =~= iv.take(i as int));
            let p = imported[i].duplicate();
            self.save_profile(p);
            i = i + 1;
        }
        assert(iv.take(i as int) =~= iv);
        imported
    }
}

} // verus!
