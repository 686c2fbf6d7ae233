//! Model of the client-side cookie state a request carries and the
//! additions/removals the server applies to it in a response.

use vstd::prelude::*;

verus! {

/// A cookie as the server sets or reads it: a name/value pair together with
/// the attributes this application uses (a root path and a max age in days;
/// a max age of zero means a login-flow cookie that lasts the session only).
pub struct Cookie {
    pub name: String,
    pub value: String,
    pub root_path: bool,
    pub max_age_days: u32,
}

/// What the jar's view records of one cookie: its value and its attributes.
pub ghost struct CookieData {
    pub value: Seq<char>,
    pub root_path: bool,
    pub max_age_days: u32,
}

impl Cookie {
    pub open spec fn data(&self) -> CookieData {
        CookieData { value: self.value@, root_path: self.root_path, max_age_days: self.max_age_days }
    }
}

/// The cookies of one request/response exchange: the entries currently
/// present, and the names the server has asked the client to delete.
pub struct CookieJar {
    pub entries: Vec<Cookie>,
    pub removals: Vec<String>,
}

impl CookieJar {
    /// The jar as a map from cookie name to the cookie's value and attributes.
    pub closed spec fn view(&self) -> Map<Seq<char>, CookieData> {
        Self::entries_map(self.entries@)
    }

    pub open spec fn entries_map(entries: Seq<Cookie>) -> Map<Seq<char>, CookieData>
        decreases entries.len(),
    {
        if entries.len() == 0 {
            Map::empty()
        } else {
            Self::entries_map(entries.drop_last()).insert(
                entries.last().name@,
                entries.last().data(),
            )
        }
    }

    /// The value of the named cookie.
    pub open spec fn value_of(&self, name: Seq<char>) -> Seq<char> {
        self@[name].value
    }

    /// Names are pairwise distinct, so the map view loses nothing.
    pub open spec fn wf(&self) -> bool {
        forall|i: int, j: int|
            0 <= i < j < self.entries@.len() ==> self.entries@[i].name@ != self.entries@[j].name@
    }

    pub fn new() -> (jar: CookieJar)
        ensures
            jar.wf(),
            jar@ == Map::<Seq<char>, CookieData>::empty(),
            jar.removals@.len() == 0,
    {
        CookieJar { entries: Vec::new(), removals: Vec::new() }
    }

    /// The set of names the server has asked the client to delete.
    pub open spec fn removed_names(&self) -> Set<Seq<char>> {
        self.removals@.map_values(|n: String| n@).to_set()
    }

    /// The index of the entry of the given name, if one is present.
    fn find(&self, name: &str) -> (r: Option<usize>)
        requires
            self.wf(),
        ensures
            match r {
                Some(i) => i < self.entries@.len() && self.entries@[i as int].name@ == name@
                    && self@.contains_key(name@) && self@[name@] == self.entries@[i as int].data(),
                None => !self@.contains_key(name@) && forall|j: int|
                    0 <= j < self.entries@.len() ==> self.entries@[j].name@ != name@,
            },
    {
        let n = self.entries.len();
        let mut i: usize = 0;
        while i < n
            invariant
                self.wf(),
                n == self.entries@.len(),
                i <= n,
                forall|j: int| 0 <= j < i ==> self.entries@[j].name@ != name@,
            decreases n - i,
        {
            if string_eq_str(&self.entries[i].name, name) {
                proof {
                    Self::lemma_entries_map_get(self.entries@, i as int);
                }
                return Some(i);
            }
            i += 1;
        }
        proof {
            Self::lemma_entries_map_keys(self.entries@, name@);
        }
        None
    }

    /// Look a cookie up by name.
    pub fn get(&self, name: &str) -> (r: Option<&String>)
        requires
            self.wf(),
        ensures
            match r {
                Some(v) => self@.contains_key(name@) && self@[name@].value == v@,
                None => !self@.contains_key(name@),
            },
    {
        match self.find(name) {
            Some(i) => Some(&self.entries[i].value),
            None => None,
        }
    }

    /// Add a cookie, replacing any entry of the same name.
    pub fn add(&mut self, cookie: Cookie)
        requires
            old(self).wf(),
        ensures
            final(self).wf(),
            final(self)@ == old(self)@.insert(cookie.name@, cookie.data()),
            final(self).removals@ == old(self).removals@,
            exists|i: int|
                0 <= i < final(self).entries@.len() && final(self).entries@[i] == cookie,
    {
        self.delete_entry(&cookie.name.clone());
        let ghost pre = self.entries@;
        self.entries.push(cookie);
        proof {
            assert(self.entries@.drop_last() == pre);
            assert(self.entries@[self.entries@.len() - 1] == cookie);
        }
    }

    /// Remove a cookie: drop the entry and record the deletion for the client.
    pub fn remove(&mut self, name: &str)
        requires
            old(self).wf(),
        ensures
            final(self).wf(),
            final(self)@ == old(self)@.remove(name@),
            final(self).removed_names() == old(self).removed_names().insert(name@),
    {
        self.delete_entry(name);
        let owned = string_copy(name);
        let ghost pre = self.removals@;
        self.removals.push(owned);
        proof {
            let pre_m = pre.map_values(|n: String| n@);
            let post_m = self.removals@.map_values(|n: String| n@);
            assert(post_m =~= pre_m.push(name@));
            assert forall|x: Seq<char>| #[trigger] post_m.contains(x) implies pre_m.contains(x)
                || x == name@ by {
                let i = choose|i: int| 0 <= i < post_m.len() && post_m[i] == x;
                if i < pre_m.len() {
                    assert(pre_m[i] == x);
                }
            }
            assert forall|x: Seq<char>| #[trigger] pre_m.contains(x) implies post_m.contains(
                x,
            ) by {
                let i = choose|i: int| 0 <= i < pre_m.len() && pre_m[i] == x;
                assert(post_m[i] == x);
            }
            assert(post_m[post_m.len() - 1] == name@);
            assert(post_m.contains(name@));
            assert(self.removed_names() =~= old(self).removed_names().insert(name@));
        }
    }

    /// Drop the entry of the given name, if present.
    fn delete_entry(&mut self, name: &str)
        requires
            old(self).wf(),
        ensures
            final(self).wf(),
            final(self)@ == old(self)@.remove(name@),
            final(self).removals@ == old(self).removals@,
            forall|j: int|
                0 <= j < final(self).entries@.len() ==> final(self).entries@[j].name@ != name@,
    {
        match self.find(name) {
            Some(i) => {
                let ghost pre = self.entries@;
                self.entries.remove(i);
                proof {
                    Self::lemma_entries_map_remove(pre, i as int);
                }
            },
            None => {
                proof {
                    assert(self@ =~= self@.remove(name@));
                }
            },
        }
    }

    /// A name absent from every entry is absent from the map view.
    proof fn lemma_entries_map_keys(entries: Seq<Cookie>, name: Seq<char>)
        requires
            forall|j: int| 0 <= j < entries.len() ==> entries[j].name@ != name,
        ensures
            !Self::entries_map(entries).contains_key(name),
        decreases entries.len(),
    {
        if entries.len() > 0 {
            Self::lemma_entries_map_keys(entries.drop_last(), name);
        }
    }

    /// An entry whose name is unique in the suffix after it gives the map value.
    proof fn lemma_entries_map_get(entries: Seq<Cookie>, i: int)
        requires
            0 <= i < entries.len(),
            forall|j: int| i < j < entries.len() ==> entries[j].name@ != entries[i].name@,
        ensures
            Self::entries_map(entries).contains_key(entries[i].name@),
            Self::entries_map(entries)[entries[i].name@] == entries[i].data(),
        decreases entries.len(),
    {
        if i < entries.len() - 1 {
            assert(entries.drop_last()[i] == entries[i]);
            Self::lemma_entries_map_get(entries.drop_last(), i);
        }
    }

    /// Dropping the one entry of a name removes that name from the map view.
    proof fn lemma_entries_map_remove(entries: Seq<Cookie>, i: int)
        requires
            0 <= i < entries.len(),
            forall|j: int, k: int|
                0 <= j < k < entries.len() ==> entries[j].name@ != entries[k].name@,
        ensures
            Self::entries_map(entries.remove(i)) == Self::entries_map(entries).remove(
                entries[i].name@,
            ),
        decreases entries.len(),
    {
        let name = entries[i].name@;
        if i == entries.len() - 1 {
            assert(entries.remove(i) == entries.drop_last());
            Self::lemma_entries_map_keys(entries.drop_last(), name);
            assert(Self::entries_map(entries.drop_last()) =~= Self::entries_map(
                entries,
            ).remove(name));
        } else {
            let shorter = entries.drop_last();
            let last = entries.last();
            assert(entries.remove(i).drop_last() == shorter.remove(i));
            assert(entries.remove(i).last() == last);
            Self::lemma_entries_map_remove(shorter, i);
            assert(Self::entries_map(entries.remove(i)) =~= Self::entries_map(entries).remove(
                name,
            ));
        }
    }

}

/// Compare an owned string with a borrowed one character for character.
pub fn string_eq_str(a: &String, b: &str) -> (r: bool)
    ensures
        r == (a@ == b@),
{
    let an = a.as_str().unicode_len();
    let bn = b.unicode_len();
    if an != bn {
        assert(a@ != b@) by {
            assert(a@.len() != b@.len());
        }
        return false;
    }
    let mut i: usize = 0;
    while i < an
        invariant
            an == a@.len(),
            an == b@.len(),
            i <= an,
            forall|j: int| 0 <= j < i ==> a@[j] == b@[j],
        decreases an - i,
    {
        if a.as_str().get_char(i) != b.get_char(i) {
            return false;
        }
        i += 1;
    }
    proof {
        assert(a@ =~= b@);
    }
    true
}

/// Make an owned copy of a borrowed string.
pub fn string_copy(s: &str) -> (r: String)
    ensures
        r@ == s@,
{
    String::from_str(s)
}

} // verus!
