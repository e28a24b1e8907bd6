use vstd::prelude::*;

verus! {

/// One IP-to-domain mapping of a hosts file.
#[derive(Clone, Debug)]
pub struct HostsEntry {
    pub ip: String,
    pub domain: String,
    pub comment: Option<String>,
    pub enabled: bool,
}

/// What an entry holds, as sequences of characters.
pub struct EntryView {
    pub ip: Seq<char>,
    pub domain: Seq<char>,
    pub comment: Option<Seq<char>>,
    pub enabled: bool,
}

pub open spec fn opt_view(o: Option<String>) -> Option<Seq<char>> {
    match o {
        Some(s) => Some(s@),
        None => None,
    }
}

impl View for HostsEntry {
    type V = EntryView;

    open spec fn view(&self) -> EntryView {
        EntryView {
            ip: self.ip@,
            domain: self.domain@,
            comment: opt_view(self.comment),
            enabled: self.enabled,
        }
    }
}

/// The views of a sequence of entries, in order.
pub open spec fn entry_views(es: Seq<HostsEntry>) -> Seq<EntryView> {
    es.map_values(|e: HostsEntry| e@)
}

/// A named, saved collection of entries.
#[derive(Clone, Debug)]
pub struct HostsProfile {
    pub id: String,
    pub name: String,
    pub description: Option<String>,
    pub entries: Vec<HostsEntry>,
    pub created_at: String,
    pub updated_at: String,
}

/// What a profile holds, as sequences of characters and entry views.
pub struct ProfileView {
    pub id: Seq<char>,
    pub name: Seq<char>,
    pub description: Option<Seq<char>>,
    pub entries: Seq<EntryView>,
    pub created_at: Seq<char>,
    pub updated_at: Seq<char>,
}

impl View for HostsProfile {
    type V = ProfileView;

    open spec fn view(&self) -> ProfileView {
        ProfileView {
            id: self.id@,
            name: self.name@,
            description: opt_view(self.description),
            entries: entry_views(self.entries@),
            created_at: self.created_at@,
            updated_at: self.updated_at@,
        }
    }
}

/// The views of a sequence of profiles, in order.
pub open spec fn profile_views(ps: Seq<HostsProfile>) -> Seq<ProfileView> {
    ps.map_values(|p: HostsProfile| p@)
}

fn copy_opt(o: &Option<String>) -> (r: Option<String>)
    ensures
        opt_view(r) == opt_view(*o),
{
    match o {
        Some(c) => Some(c.clone()),
        None => None,
    }
}

impl HostsEntry {
    /// A copy of the entry, field by field.
    pub fn duplicate(&self) -> (r: HostsEntry)
        ensures
            r@ == self@,
    {
        HostsEntry {
            ip: self.ip.clone(),
            domain: self.domain.clone(),
            comment: copy_opt(&self.comment),
            enabled: self.enabled,
        }
    }
}

/// A copy of a sequence of entries, in order.
pub fn duplicate_entries(v: &Vec<HostsEntry>) -> (r: Vec<HostsEntry>)
    ensures
        entry_views(r@) == entry_views(v@),
{
    let mut r: Vec<HostsEntry> = Vec::new();
    for i in 0..v.len()
        invariant
            entry_views(r@) == entry_views(v@).take(i as int),
    {
        let e = v[i].duplicate();
        let ghost old_r = r@;
        r.push(e);
        assert(entry_views(r@) =~= entry_views(old_r).push(e@));
        assert(entry_views(v@).take(i + 1) =~= entry_views(v@).take(i as int).push(v@[i as int]@));
    }
    assert(entry_views(v@).take(v.len() as int) =~= entry_views(v@));
    r
}

impl HostsProfile {
    /// A copy of the profile, field by field.
    pub fn duplicate(&self) -> (r: HostsProfile)
        ensures
            r@ == self@,
    {
        HostsProfile {
            id: self.id.clone(),
            name: self.name.clone(),
            description: copy_opt(&self.description),
            entries: duplicate_entries(&self.entries),
            created_at: self.created_at.clone(),
            updated_at: self.updated_at.clone(),
        }
    }
}

/// The failures of the library's operations, each with its message.
#[derive(Clone, Debug)]
pub enum HostsError {
    Io(String),
    NotFound(String),
    PermissionDenied(String),
    System(String),
    Malformed(String),
}

impl HostsError {
    /// The message that the error carries.
    pub fn message(&self) -> (r: String)
        ensures
            r@ == match *self {
                HostsError::Io(m) => m@,
                HostsError::NotFound(m) => m@,
                HostsError::PermissionDenied(m) => m@,
                HostsError::System(m) => m@,
                HostsError::Malformed(m) => m@,
            },
    {
        match self {
            HostsError::Io(m) => m.clone(),
            HostsError::NotFound(m) => m.clone(),
            HostsError::PermissionDenied(m) => m.clone(),
            HostsError::System(m) => m.clone(),
            HostsError::Malformed(m) => m.clone(),
        }
    }
}

} // verus!
