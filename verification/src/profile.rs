//! The profile library: imported VPN profiles, the selected one, and the rules for names
//! and saved logins.
use vstd::prelude::*;
use crate::text::{
    any_control, chars_of, contains_char, has_char, has_control, is_control_char, string_of, trim, trimmed,
};

verus! {

/// What `str::to_lowercase` makes of a text (full Unicode lower-casing).
pub uninterp spec fn lowercase(s: Seq<char>) -> Seq<char>;

/// Calls `str::to_lowercase`.
///
/// Trusted: the result is the named result `lowercase` of the text.
#[verifier::external_body]
fn to_lower(s: &str) -> (r: String)
    ensures
        r@ == lowercase(s@),
{
    s.to_lowercase()
}

/// One imported VPN profile.
#[derive(Debug)]
pub struct Profile {
    /// The app's own identifier of the profile.
    pub id: u128,
    /// The UUID of the profile's NetworkManager connection.
    pub nm_uuid: u128,
    pub name: String,
    pub remote: String,
    pub protocol: String,
    pub username: String,
    pub has_password: bool,
}

/// All imported profiles and the selected one.
#[derive(Debug)]
pub struct Profiles {
    pub profiles: Vec<Profile>,
    pub selected: Option<u128>,
}

/// Why a profile operation was refused.
#[derive(Clone, Copy, PartialEq, Eq, Debug, Structural)]
pub enum ProfileError {
    InvalidName,
    NameInUse,
    InvalidUsername,
    PasswordRequired,
    InvalidPassword,
    /// The profile an operation names is not in the library.
    ProfileMissing,
    /// The profile to select is not in the library.
    ProfileVanished,
    /// No profile is selected to connect with.
    NoProfile,
    /// The profile's connection is still active.
    StillConnected,
}

/// The message shown for a refusal.
pub open spec fn profile_error_text(e: ProfileError) -> Seq<char> {
    match e {
        ProfileError::InvalidName => "Choose a profile name between 1 and 60 characters."@,
        ProfileError::NameInUse => "That profile name is already in use."@,
        ProfileError::InvalidUsername => "Enter a username between 1 and 255 characters without commas."@,
        ProfileError::PasswordRequired => "Enter a password to save with this profile."@,
        ProfileError::InvalidPassword => "The password is too long or contains unsupported control characters."@,
        ProfileError::ProfileMissing => "This profile no longer exists."@,
        ProfileError::ProfileVanished => "Profile no longer exists."@,
        ProfileError::NoProfile => "Import a profile first."@,
        ProfileError::StillConnected => "Disconnect this profile before removing it."@,
    }
}

impl ProfileError {
    /// The message shown for this refusal.
    pub fn message(&self) -> (r: String)
        ensures
            r@ == profile_error_text(*self),
    {
        let s = match self {
            ProfileError::InvalidName => "Choose a profile name between 1 and 60 characters.",
            ProfileError::NameInUse => "That profile name is already in use.",
            ProfileError::InvalidUsername => "Enter a username between 1 and 255 characters without commas.",
            ProfileError::PasswordRequired => "Enter a password to save with this profile.",
            ProfileError::InvalidPassword => "The password is too long or contains unsupported control characters.",
            ProfileError::ProfileMissing => "This profile no longer exists.",
            ProfileError::ProfileVanished => "Profile no longer exists.",
            ProfileError::NoProfile => "Import a profile first.",
            ProfileError::StillConnected => "Disconnect this profile before removing it.",
        };
        String::from_str(s)
    }
}

/// The index of the first of the first `n` profiles with this id.
pub open spec fn first_with_id(ps: Seq<Profile>, id: u128, n: int) -> Option<int>
    decreases n,
{
    if n <= 0 {
        None
    } else {
        match first_with_id(ps, id, n - 1) {
            Some(k) => Some(k),
            None => if ps[n - 1].id == id {
                Some(n - 1)
            } else {
                None
            },
        }
    }
}

/// The index of the first profile with this id.
pub open spec fn index_of(ps: Seq<Profile>, id: u128) -> Option<int> {
    first_with_id(ps, id, ps.len() as int)
}

/// Whether some profile has this id.
pub open spec fn has_id(ps: Seq<Profile>, id: u128) -> bool {
    exists|i: int| 0 <= i < ps.len() && #[trigger] ps[i].id == id
}

/// The selected profile: the first with the selected id.
pub open spec fn selected_profile(p: Profiles) -> Option<Profile> {
    match p.selected {
        Some(id) => match index_of(p.profiles@, id) {
            Some(i) => Some(p.profiles@[i]),
            None => None,
        },
        None => None,
    }
}

/// The selection names a profile of the library, and there is one whenever the library
/// is not empty.
pub open spec fn selection_valid(p: Profiles) -> bool {
    match p.selected {
        Some(id) => has_id(p.profiles@, id),
        None => p.profiles@.len() == 0,
    }
}

/// The profiles of `ps` without those that have this id, in order.
pub open spec fn without_id(ps: Seq<Profile>, id: u128) -> Seq<Profile>
    decreases ps.len(),
{
    if ps.len() == 0 {
        seq![]
    } else {
        let rest = without_id(ps.drop_last(), id);
        if ps.last().id == id {
            rest
        } else {
            rest.push(ps.last())
        }
    }
}

/// The outcome of checking a new profile name against the library.
pub open spec fn name_check(ps: Seq<Profile>, name: Seq<char>) -> Result<Seq<char>, ProfileError> {
    let t = trim(name);
    if t.len() == 0 || t.len() > 60 || has_control(t) {
        Err(ProfileError::InvalidName)
    } else if exists|i: int| 0 <= i < ps.len() && lowercase(#[trigger] ps[i].name@) == lowercase(t) {
        Err(ProfileError::NameInUse)
    } else {
        Ok(t)
    }
}

/// Whether a trimmed username is acceptable: 1 to 255 characters, no control character
/// and no comma.
pub open spec fn username_ok(u: Seq<char>) -> bool {
    u.len() > 0 && u.len() <= 255 && !has_control(u) && !has_char(u, ',')
}

/// The outcome of checking a login: the trimmed username, and the password to save, if any.
pub open spec fn login_check(username: Seq<char>, password: Seq<char>, has_saved_password: bool) -> Result<
    (Seq<char>, Option<Seq<char>>),
    ProfileError,
> {
    let u = trim(username);
    if !username_ok(u) {
        Err(ProfileError::InvalidUsername)
    } else if password.len() == 0 {
        if has_saved_password {
            Ok((u, None))
        } else {
            Err(ProfileError::PasswordRequired)
        }
    } else if password.len() > 4096 || has_control(password) {
        Err(ProfileError::InvalidPassword)
    } else {
        Ok((u, Some(password)))
    }
}

/// Checks a login before it is saved with a profile. An empty password keeps the saved one,
/// if the profile has one.
pub fn validate_credentials(username: &str, password: &str, has_saved_password: bool) -> (r:
    Result<(String, Option<String>), ProfileError>)
    ensures
        match (r, login_check(username@, password@, has_saved_password)) {
            (Ok((u, p)), Ok((su, sp))) => u@ == su && match (p, sp) {
                (Some(p), Some(sp)) => p@ == sp,
                (None, None) => true,
                _ => false,
            },
            (Err(e), Err(se)) => e == se,
            _ => false,
        },
{
    let u = trimmed(&chars_of(username));
    if u.len() == 0 || u.len() > 255 || any_control(&u) || contains_char(&u, ',') {
        return Err(ProfileError::InvalidUsername);
    }
    let p = chars_of(password);
    if p.len() == 0 {
        if has_saved_password {
            return Ok((string_of(&u), None));
        }
        return Err(ProfileError::PasswordRequired);
    }
    if p.len() > 4096 || any_control(&p) {
        return Err(ProfileError::InvalidPassword);
    }
    Ok((string_of(&u), Some(String::from_str(password))))
}

impl Profile {
    /// A copy of this profile.
    pub fn duplicate(&self) -> (r: Profile)
        ensures
            r == *self,
    {
        Profile {
            id: self.id,
            nm_uuid: self.nm_uuid,
            name: self.name.clone(),
            remote: self.remote.clone(),
            protocol: self.protocol.clone(),
            username: self.username.clone(),
            has_password: self.has_password,
        }
    }
}

impl Profiles {
    /// An empty library.
    pub fn new() -> (r: Profiles)
        ensures
            r.profiles@.len() == 0,
            r.selected is None,
    {
        Profiles { profiles: Vec::new(), selected: None }
    }

    /// The index of the first profile with this id.
    pub fn position(&self, id: u128) -> (r: Option<usize>)
        ensures
            match r {
                Some(i) => index_of(self.profiles@, id) == Some(i as int),
                None => index_of(self.profiles@, id) is None,
            },
            r is Some <==> has_id(self.profiles@, id),
            r matches Some(i) ==> i < self.profiles@.len() && self.profiles@[i as int].id == id,
    {
        let ghost ps = self.profiles@;
        let mut i: usize = 0;
        while i < self.profiles.len()
            invariant
                ps == self.profiles@,
                i <= ps.len(),
                first_with_id(ps, id, i as int) is None,
                forall|j: int| 0 <= j < i ==> ps[j].id != id,
            decreases ps.len() - i,
        {
            if self.profiles[i].id == id {
                assert(first_with_id(ps, id, i + 1) == Some(i as int));
                proof {
                    lemma_first_with_id_stable(ps, id, i + 1);
                }
                return Some(i);
            }
            i = i + 1;
        }
        None
    }

    /// The selected profile, if the selection names one.
    pub fn selected(&self) -> (r: Option<&Profile>)
        ensures
            match r {
                Some(p) => selected_profile(*self) == Some(*p),
                None => selected_profile(*self) is None,
            },
    {
        match self.selected {
            Some(id) => match self.position(id) {
                Some(i) => Some(&self.profiles[i]),
                None => None,
            },
            None => None,
        }
    }

    /// Checks a name for a new profile: trimmed, 1 to 60 characters without control
    /// characters, and different, ignoring case, from every saved profile name.
    pub fn validate_name(&self, name: &str) -> (r: Result<String, ProfileError>)
        ensures
            match (r, name_check(self.profiles@, name@)) {
                (Ok(n), Ok(sn)) => n@ == sn,
                (Err(e), Err(se)) => e == se,
                _ => false,
            },
    {
        let t = trimmed(&chars_of(name));
        if t.len() == 0 || t.len() > 60 || any_control(&t) {
            return Err(ProfileError::InvalidName);
        }
        let candidate = string_of(&t);
        let wanted = to_lower(candidate.as_str());
        let mut i: usize = 0;
        while i < self.profiles.len()
            invariant
                i <= self.profiles@.len(),
                wanted@ == lowercase(t@),
                t@ == trim(name@),
                candidate@ == t@,
                !(t@.len() == 0 || t@.len() > 60 || has_control(t@)),
                forall|j: int| 0 <= j < i ==> lowercase(#[trigger] self.profiles@[j].name@) != lowercase(t@),
            decreases self.profiles@.len() - i,
        {
            let existing = to_lower(self.profiles[i].name.as_str());
            if existing == wanted {
                assert(existing@ == wanted@);
                assert(lowercase(self.profiles@[i as int].name@) == lowercase(t@));
                assert(t@ == trim(name@));
                return Err(ProfileError::NameInUse);
            }
            i = i + 1;
        }
        Ok(candidate)
    }

    /// A copy of the profile list.
    fn copy_profiles(&self) -> (r: Vec<Profile>)
        ensures
            r@ == self.profiles@,
    {
        let mut r: Vec<Profile> = Vec::new();
        let mut i: usize = 0;
        while i < self.profiles.len()
            invariant
                i <= self.profiles@.len(),
                r@ == self.profiles@.take(i as int),
            decreases self.profiles@.len() - i,
        {
            r.push(self.profiles[i].duplicate());
            assert(self.profiles@.take(i + 1) =~= self.profiles@.take(i as int).push(self.profiles@[i as int]));
            i = i + 1;
        }
        assert(self.profiles@.take(self.profiles@.len() as int) =~= self.profiles@);
        r
    }

    /// A copy of the library.
    pub fn duplicate(&self) -> (r: Profiles)
        ensures
            r.profiles@ == self.profiles@,
            r.selected == self.selected,
    {
        Profiles { profiles: self.copy_profiles(), selected: self.selected }
    }

    /// The library with the profile of this id selected.
    pub fn selecting(&self, id: u128) -> (r: Result<Profiles, ProfileError>)
        ensures
            has_id(self.profiles@, id) <==> r is Ok,
            r matches Ok(next) ==> next.profiles@ == self.profiles@ && next.selected == Some(id),
            r matches Err(e) ==> e == ProfileError::ProfileVanished,
            r matches Ok(next) ==> selection_valid(next),
    {
        if self.position(id).is_none() {
            return Err(ProfileError::ProfileVanished);
        }
        Ok(Profiles { profiles: self.copy_profiles(), selected: Some(id) })
    }

    /// The library with a newly imported profile added at the end and selected.
    pub fn adding(&self, profile: Profile) -> (r: Profiles)
        ensures
            r.profiles@ == self.profiles@.push(profile),
            r.selected == Some(profile.id),
            selection_valid(r),
            // A profile with a fresh id is the one selected afterwards.
            !has_id(self.profiles@, profile.id) ==> selected_profile(r) == Some(profile),
    {
        proof {
            let ps = self.profiles@.push(profile);
            assert(ps[ps.len() - 1].id == profile.id);
            if !has_id(self.profiles@, profile.id) {
                lemma_index_of(ps, profile.id);
                lemma_first_with_id_absent(self.profiles@, ps, profile.id, self.profiles@.len() as int);
            }
        }
        let mut ps = self.copy_profiles();
        let id = profile.id;
        ps.push(profile);
        Profiles { profiles: ps, selected: Some(id) }
    }

    /// The library after the profile with this id is removed, and the removed profile.
    /// When the removed profile was selected, the first remaining one is selected.
    pub fn removing(&self, id: u128) -> (r: Result<(Profiles, Profile), ProfileError>)
        ensures
            has_id(self.profiles@, id) <==> r is Ok,
            r matches Err(e) ==> e == ProfileError::ProfileMissing,
            r matches Ok((next, gone)) ==> {
                &&& index_of(self.profiles@, id) matches Some(i) && gone == self.profiles@[i]
                &&& next.profiles@ == without_id(self.profiles@, id)
                &&& next.selected == if self.selected == Some(id) {
                    if next.profiles@.len() > 0 {
                        Some(next.profiles@[0].id)
                    } else {
                        None
                    }
                } else {
                    self.selected
                }
            },
            // Exactly the profiles with this id leave; the others stay.
            r matches Ok((next, _)) ==> !has_id(next.profiles@, id) && forall|i: int|
                0 <= i < self.profiles@.len() && self.profiles@[i].id != id ==> next.profiles@.contains(
                    #[trigger] self.profiles@[i],
                ),
            r matches Ok((next, _)) ==> (selection_valid(*self) ==> selection_valid(next)),
    {
        let index = match self.position(id) {
            Some(i) => i,
            None => return Err(ProfileError::ProfileMissing),
        };
        let gone = self.profiles[index].duplicate();
        let ghost ps = self.profiles@;
        let mut kept: Vec<Profile> = Vec::new();
        let mut i: usize = 0;
        while i < self.profiles.len()
            invariant
                ps == self.profiles@,
                i <= ps.len(),
                kept@ == without_id(ps.take(i as int), id),
            decreases ps.len() - i,
        {
            assert(ps.take(i + 1).drop_last() =~= ps.take(i as int));
            assert(ps.take(i + 1).last() == ps[i as int]);
            if self.profiles[i].id != id {
                kept.push(self.profiles[i].duplicate());
            }
            i = i + 1;
        }
        assert(ps.take(ps.len() as int) =~= ps);
        let selected = if self.selected == Some(id) {
            if kept.len() > 0 {
                Some(kept[0].id)
            } else {
                None
            }
        } else {
            self.selected
        };
        proof {
            lemma_without_id(ps, id);
            if self.selected is Some && self.selected != Some(id) && has_id(ps, self.selected->0) {
                let k = choose|k: int| 0 <= k < ps.len() && #[trigger] ps[k].id == self.selected->0;
                assert(kept@.contains(ps[k]));
                let m = choose|m: int| 0 <= m < kept@.len() && kept@[m] == ps[k];
                assert(kept@[m].id == self.selected->0);
            }
            if kept@.len() > 0 {
                assert(kept@[0].id == kept@[0].id);
            }
        }
        Ok((Profiles { profiles: kept, selected }, gone))
    }

    /// The library after a login is saved for the profile with this id: its username is
    /// replaced and it is marked as having a saved password.
    pub fn with_login(&self, id: u128, username: String) -> (r: Result<Profiles, ProfileError>)
        ensures
            has_id(self.profiles@, id) <==> r is Ok,
            r matches Err(e) ==> e == ProfileError::ProfileMissing,
            r matches Ok(next) ==> {
                &&& index_of(self.profiles@, id) matches Some(i)
                    && next.profiles@ == self.profiles@.update(
                    i,
                    (Profile { username, has_password: true, ..self.profiles@[i] }),
                )
                &&& next.selected == self.selected
            },
            r matches Ok(next) ==> (selection_valid(*self) ==> selection_valid(next)),
    {
        let index = match self.position(id) {
            Some(i) => i,
            None => return Err(ProfileError::ProfileMissing),
        };
        let mut ps = self.copy_profiles();
        let old = ps[index].duplicate();
        let updated = Profile {
            id: old.id,
            nm_uuid: old.nm_uuid,
            name: old.name,
            remote: old.remote,
            protocol: old.protocol,
            username,
            has_password: true,
        };
        ps.set(index, updated);
        proof {
            if self.selected is Some && has_id(self.profiles@, self.selected->0) {
                let k = choose|k: int| 0 <= k < self.profiles@.len() && #[trigger] self.profiles@[k].id == self.selected->0;
                assert(ps@[k].id == self.selected->0);
            }
        }
        Ok(Profiles { profiles: ps, selected: self.selected })
    }

    /// Settles the selection of a library read from disk: when it names no profile, the
    /// first profile is selected (or none, in an empty library).
    pub fn settle_selection(&mut self)
        ensures
            final(self).profiles@ == old(self).profiles@,
            selected_profile(*old(self)) is Some ==> final(self).selected == old(self).selected,
            selected_profile(*old(self)) is None ==> final(self).selected == if old(self).profiles@.len()
                > 0 {
                Some(old(self).profiles@[0].id)
            } else {
                None
            },
            selection_valid(*final(self)),
    {
        proof {
            lemma_index_of(self.profiles@, if self.selected is Some { self.selected->0 } else { 0 });
        }
        if self.selected().is_none() {
            self.selected = if self.profiles.len() > 0 {
                Some(self.profiles[0].id)
            } else {
                None
            };
        }
    }

    /// Takes a library as read from disk. Each profile has a saved password exactly when
    /// its password file is present (`present`, in library order); a stored selection that
    /// names a profile is kept, otherwise the first profile is selected, and none only in an
    /// empty library.
    pub fn settle_loaded(&mut self, present: &[bool])
        requires
            present@.len() == old(self).profiles@.len(),
        ensures
            final(self).profiles@.len() == old(self).profiles@.len(),
            forall|i: int|
                0 <= i < present@.len() ==> #[trigger] final(self).profiles@[i] == (Profile {
                    has_password: present@[i],
                    ..old(self).profiles@[i]
                }),
            (old(self).selected matches Some(id) && has_id(old(self).profiles@, id)) ==> final(self).selected
                == old(self).selected,
            !(old(self).selected matches Some(id) && has_id(old(self).profiles@, id)) ==> final(self).selected
                == if old(self).profiles@.len() > 0 {
                Some(old(self).profiles@[0].id)
            } else {
                None
            },
            selection_valid(*final(self)),
            final(self).selected is None <==> final(self).profiles@.len() == 0,
    {
        proof {
            lemma_index_of(self.profiles@, if self.selected is Some { self.selected->0 } else { 0 });
        }
        self.settle_selection();
        let ghost mid = self.profiles@;
        let ghost chosen = self.selected;
        self.mark_saved_passwords(present);
        proof {
            if chosen is Some {
                let sid = chosen->0;
                let k = choose|k: int| 0 <= k < mid.len() && #[trigger] mid[k].id == sid;
                assert(self.profiles@[k].id == sid);
            }
        }
    }

    /// Records, profile by profile, whether a saved password file exists.
    pub fn mark_saved_passwords(&mut self, present: &[bool])
        requires
            present@.len() == old(self).profiles@.len(),
        ensures
            final(self).selected == old(self).selected,
            final(self).profiles@.len() == old(self).profiles@.len(),
            forall|i: int|
                0 <= i < present@.len() ==> #[trigger] final(self).profiles@[i] == (Profile {
                    has_password: present@[i],
                    ..old(self).profiles@[i]
                }),
    {
        let ghost before = self.profiles@;
        let mut i: usize = 0;
        while i < present.len()
            invariant
                i <= present@.len(),
                present@.len() == before.len(),
                self.profiles@.len() == before.len(),
                self.selected == old(self).selected,
                before == old(self).profiles@,
                forall|j: int|
                    0 <= j < i ==> #[trigger] self.profiles@[j] == (Profile {
                        has_password: present@[j],
                        ..before[j]
                    }),
                forall|j: int| i <= j < before.len() ==> #[trigger] self.profiles@[j] == before[j],
            decreases present@.len() - i,
        {
            let p = self.profiles[i].duplicate();
            let updated = Profile {
                id: p.id,
                nm_uuid: p.nm_uuid,
                name: p.name,
                remote: p.remote,
                protocol: p.protocol,
                username: p.username,
                has_password: present[i],
            };
            self.profiles.set(i, updated);
            i = i + 1;
        }
    }
}

proof fn lemma_first_with_id_stable(ps: Seq<Profile>, id: u128, n: int)
    requires
        0 <= n <= ps.len(),
        first_with_id(ps, id, n) is Some,
    ensures
        first_with_id(ps, id, ps.len() as int) == first_with_id(ps, id, n),
    decreases ps.len() - n,
{
    if n < ps.len() {
        assert(first_with_id(ps, id, n + 1) == first_with_id(ps, id, n));
        lemma_first_with_id_stable(ps, id, n + 1);
    }
}

/// What the first index with an id is: a profile with that id, preceded by none.
proof fn lemma_first_with_id(ps: Seq<Profile>, id: u128, n: int)
    requires
        0 <= n <= ps.len(),
    ensures
        first_with_id(ps, id, n) matches Some(i) ==> 0 <= i < n && ps[i].id == id && forall|j: int|
            0 <= j < i ==> ps[j].id != id,
        first_with_id(ps, id, n) is None ==> forall|j: int| 0 <= j < n ==> ps[j].id != id,
    decreases n,
{
    if n > 0 {
        lemma_first_with_id(ps, id, n - 1);
    }
}

/// The first index with an id names a profile with that id, and there is one exactly when
/// some profile has the id.
pub proof fn lemma_index_of(ps: Seq<Profile>, id: u128)
    ensures
        index_of(ps, id) matches Some(i) ==> 0 <= i < ps.len() && ps[i].id == id,
        index_of(ps, id) is Some <==> has_id(ps, id),
{
    lemma_first_with_id(ps, id, ps.len() as int);
    if has_id(ps, id) {
        let k = choose|k: int| 0 <= k < ps.len() && #[trigger] ps[k].id == id;
        assert(ps[k].id == id);
    }
}

proof fn lemma_first_with_id_absent(short: Seq<Profile>, ps: Seq<Profile>, id: u128, n: int)
    requires
        0 <= n <= short.len(),
        short.len() < ps.len(),
        forall|j: int| 0 <= j < short.len() ==> short[j] == ps[j],
        !has_id(short, id),
    ensures
        first_with_id(ps, id, n) is None,
    decreases n,
{
    if n > 0 {
        assert(short[n - 1].id != id);
        lemma_first_with_id_absent(short, ps, id, n - 1);
    }
}

/// Removing an id leaves no profile with it and keeps every other profile.
pub proof fn lemma_without_id(ps: Seq<Profile>, id: u128)
    ensures
        !has_id(without_id(ps, id), id),
        forall|i: int| 0 <= i < ps.len() && ps[i].id != id ==> without_id(ps, id).contains(#[trigger] ps[i]),
    decreases ps.len(),
{
    if ps.len() > 0 {
        let rest = ps.drop_last();
        lemma_without_id(rest, id);
        let r = without_id(rest, id);
        assert forall|i: int| 0 <= i < ps.len() && ps[i].id != id implies without_id(ps, id).contains(
            #[trigger] ps[i],
        ) by {
            if i < ps.len() - 1 {
                assert(rest[i] == ps[i]);
                assert(r.contains(rest[i]));
                let m = choose|m: int| 0 <= m < r.len() && r[m] == rest[i];
                if ps.last().id != id {
                    assert(r.push(ps.last())[m] == ps[i]);
                }
            } else {
                assert(r.push(ps.last())[r.len() as int] == ps[i]);
            }
        }
        if has_id(without_id(ps, id), id) {
            let k = choose|k: int| 0 <= k < without_id(ps, id).len() && #[trigger] without_id(ps, id)[k].id == id;
            if ps.last().id != id {
                if k < r.len() {
                    assert(r[k].id == id);
                }
            }
        }
    }
}

/// Whether the names of the profiles differ pairwise, ignoring case.
pub open spec fn names_distinct(ps: Seq<Profile>) -> bool {
    forall|i: int, j: int|
        0 <= i < ps.len() && 0 <= j < ps.len() && i != j ==> lowercase(#[trigger] ps[i].name@) != lowercase(
            #[trigger] ps[j].name@,
        )
}

/// Profile names stay distinct, ignoring case, when a profile is added under a name that
/// passed the name check.
pub proof fn lemma_checked_name_keeps_names_distinct(ps: Seq<Profile>, name: Seq<char>, p: Profile)
    requires
        names_distinct(ps),
        name_check(ps, name) is Ok,
        p.name@ == name_check(ps, name)->Ok_0,
    ensures
        names_distinct(ps.push(p)),
{
    let qs = ps.push(p);
    assert forall|i: int, j: int|
        0 <= i < qs.len() && 0 <= j < qs.len() && i != j implies lowercase(#[trigger] qs[i].name@) != lowercase(
        #[trigger] qs[j].name@,
    ) by {
        if i < ps.len() && j < ps.len() {
            assert(qs[i] == ps[i] && qs[j] == ps[j]);
        } else if i < ps.len() {
            assert(qs[i] == ps[i]);
        } else {
            assert(qs[j] == ps[j]);
        }
    }
}

/// The content of a saved-password file, in `nmcli`'s passwd-file format.
pub open spec fn password_file(password: Seq<char>) -> Seq<char> {
    "vpn.secrets.password:"@ + password + "\n"@
}

/// The content of a profile's saved-password file.
pub fn password_file_text(password: &str) -> (r: String)
    ensures
        r@ == password_file(password@),
{
    String::from_str("vpn.secrets.password:").concat(password).concat("\n")
}

/// An accepted password holds no line break, so its saved-password file is one line; an
/// accepted username holds neither line breaks nor the commas that separate VPN settings.
pub proof fn lemma_accepted_login_is_one_line(username: Seq<char>, password: Seq<char>, has_saved_password: bool)
    ensures
        login_check(username, password, has_saved_password) matches Ok((u, pw)) ==> {
            &&& !has_char(u, ',')
            &&& !has_char(u, '\n')
            &&& pw matches Some(p) ==> !has_char(p, '\n')
        },
{
    if let Ok((u, pw)) = login_check(username, password, has_saved_password) {
        if has_char(u, '\n') {
            let k = choose|k: int| 0 <= k < u.len() && #[trigger] u[k] == '\n';
            assert(is_control_char(u[k]));
        }
        if let Some(p) = pw {
            if has_char(p, '\n') {
                let k = choose|k: int| 0 <= k < p.len() && #[trigger] p[k] == '\n';
                assert(is_control_char(p[k]));
            }
        }
    }
}

/// Which names a library accepts for a new profile, over all names: the name is trimmed;
/// a trimmed name of 1 to 60 characters without control characters is accepted as it is
/// (spaces and any other characters included) unless a saved profile has the same name
/// ignoring case, which is refused as in use; any other name is refused as invalid.
pub proof fn lemma_name_rules(ps: Seq<Profile>, name: Seq<char>)
    ensures
        ({
            let t = trim(name);
            let shaped = 1 <= t.len() <= 60 && forall|j: int| 0 <= j < t.len() ==> !is_control_char(#[trigger] t[j]);
            let taken = exists|i: int| 0 <= i < ps.len() && lowercase(#[trigger] ps[i].name@) == lowercase(t);
            &&& shaped && !taken ==> name_check(ps, name) == Ok::<Seq<char>, ProfileError>(t)
            &&& shaped && taken ==> name_check(ps, name) == Err::<Seq<char>, ProfileError>(ProfileError::NameInUse)
            &&& !shaped ==> name_check(ps, name) == Err::<Seq<char>, ProfileError>(ProfileError::InvalidName)
        }),
{
    let t = trim(name);
    if has_control(t) {
        let j = choose|j: int| 0 <= j < t.len() && is_control_char(#[trigger] t[j]);
        assert(is_control_char(t[j]));
    }
}

/// Which logins are accepted, over all usernames and passwords: the username is trimmed;
/// a trimmed username of 1 to 255 characters with no control character and no comma is
/// accepted as it is (any other character, such as `@`, included). A password of 1 to 4096
/// characters without control characters is accepted as it is; an empty password keeps a
/// saved one and is refused when none is saved; any other password is refused.
pub proof fn lemma_login_rules(username: Seq<char>, password: Seq<char>, has_saved_password: bool)
    ensures
        ({
            let t = trim(username);
            let name_ok = 1 <= t.len() <= 255 && forall|j: int|
                0 <= j < t.len() ==> !is_control_char(#[trigger] t[j]) && t[j] != ',';
            let pw_ok = 1 <= password.len() <= 4096 && forall|j: int|
                0 <= j < password.len() ==> !is_control_char(#[trigger] password[j]);
            &&& name_ok && pw_ok ==> login_check(username, password, has_saved_password) == Ok::<
                (Seq<char>, Option<Seq<char>>),
                ProfileError,
            >((t, Some(password)))
            &&& name_ok && password.len() == 0 && has_saved_password ==> login_check(
                username,
                password,
                has_saved_password,
            ) == Ok::<(Seq<char>, Option<Seq<char>>), ProfileError>((t, None))
            &&& name_ok && password.len() == 0 && !has_saved_password ==> login_check(
                username,
                password,
                has_saved_password,
            ) == Err::<(Seq<char>, Option<Seq<char>>), ProfileError>(ProfileError::PasswordRequired)
            &&& name_ok && password.len() > 0 && !pw_ok ==> login_check(username, password, has_saved_password)
                == Err::<(Seq<char>, Option<Seq<char>>), ProfileError>(ProfileError::InvalidPassword)
            &&& !name_ok ==> login_check(username, password, has_saved_password) == Err::<
                (Seq<char>, Option<Seq<char>>),
                ProfileError,
            >(ProfileError::InvalidUsername)
        }),
{
    let t = trim(username);
    if has_control(t) {
        let j = choose|j: int| 0 <= j < t.len() && is_control_char(#[trigger] t[j]);
        assert(is_control_char(t[j]));
    }
    if has_char(t, ',') {
        let j = choose|j: int| 0 <= j < t.len() && #[trigger] t[j] == ',';
        assert(t[j] == ',');
    }
    if has_control(password) {
        let j = choose|j: int| 0 <= j < password.len() && is_control_char(#[trigger] password[j]);
        assert(is_control_char(password[j]));
    }
}

} // verus!
