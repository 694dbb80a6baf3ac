//! The profile table: profile names mapped to the role each one assumes.

use vstd::prelude::*;
use crate::config::ConfigError;
use crate::text::same_text;

verus! {

/// The map that a list of `(name, role)` pairs describes, a later pair
/// replacing an earlier one of the same name.
pub open spec fn pairs_map(s: Seq<(Seq<char>, Seq<char>)>) -> Map<Seq<char>, Seq<char>>
    decreases s.len(),
{
    if s.len() == 0 {
        Map::empty()
    } else {
        pairs_map(s.drop_last()).insert(s.last().0, s.last().1)
    }
}

pub open spec fn names_unique(s: Seq<(Seq<char>, Seq<char>)>) -> bool {
    forall|i: int, j: int| 0 <= i < j < s.len() ==> #[trigger] s[i].0 != #[trigger] s[j].0
}

pub proof fn lemma_pairs_map_absent(s: Seq<(Seq<char>, Seq<char>)>, k: Seq<char>)
    requires
        forall|i: int| 0 <= i < s.len() ==> #[trigger] s[i].0 != k,
    ensures
        !pairs_map(s).contains_key(k),
    decreases s.len(),
{
    if s.len() > 0 {
        let t = s.drop_last();
        assert forall|i: int| 0 <= i < t.len() implies #[trigger] t[i].0 != k by {
            assert(t[i] == s[i]);
        }
        lemma_pairs_map_absent(t, k);
    }
}

pub proof fn lemma_pairs_map_at(s: Seq<(Seq<char>, Seq<char>)>, j: int)
    requires
        names_unique(s),
        0 <= j < s.len(),
    ensures
        pairs_map(s).contains_key(s[j].0),
        pairs_map(s)[s[j].0] == s[j].1,
    decreases s.len(),
{
    if j < s.len() - 1 {
        let t = s.drop_last();
        assert(t[j] == s[j]);
        assert(names_unique(t)) by {
            assert forall|a: int, b: int| 0 <= a < b < t.len() implies #[trigger] t[a].0
                != #[trigger] t[b].0 by {
                assert(t[a] == s[a] && t[b] == s[b]);
            }
        }
        lemma_pairs_map_at(t, j);
        assert(s[j].0 != s[s.len() - 1].0);
    }
}

pub proof fn lemma_pairs_map_update(
    s: Seq<(Seq<char>, Seq<char>)>,
    j: int,
    v: Seq<char>,
)
    requires
        names_unique(s),
        0 <= j < s.len(),
    ensures
        pairs_map(s.update(j, (s[j].0, v))) == pairs_map(s).insert(s[j].0, v),
        names_unique(s.update(j, (s[j].0, v))),
    decreases s.len(),
{
    let u = s.update(j, (s[j].0, v));
    assert(names_unique(u)) by {
        assert forall|a: int, b: int| 0 <= a < b < u.len() implies #[trigger] u[a].0
            != #[trigger] u[b].0 by {
            assert(u[a].0 == s[a].0 && u[b].0 == s[b].0);
        }
    }
    let t = s.drop_last();
    assert(names_unique(t)) by {
        assert forall|a: int, b: int| 0 <= a < b < t.len() implies #[trigger] t[a].0
            != #[trigger] t[b].0 by {
            assert(t[a] == s[a] && t[b] == s[b]);
        }
    }
    if j == s.len() - 1 {
        assert(u.drop_last() == t);
        assert(pairs_map(u) =~= pairs_map(s).insert(s[j].0, v));
    } else {
        assert(u.drop_last() == t.update(j, (t[j].0, v)));
        lemma_pairs_map_update(t, j, v);
        assert(s[j].0 != s.last().0);
        assert(pairs_map(u) =~= pairs_map(s).insert(s[j].0, v));
    }
}

/// One profile: its name and the role that it assumes.
pub struct Profile {
    pub name: String,
    pub role_arn: String,
}

/// Profile names, each unique, mapped to role identifiers.
pub struct ProfileTable {
    entries: Vec<Profile>,
}

/// A choice offered to the interactive picker: the profile, the line shown,
/// and the role identifier returned when it is picked.
pub struct Candidate {
    pub name: String,
    pub label: String,
    pub role_arn: String,
}

/// Width to which profile names are padded in the picker's lines.
pub const LABEL_NAME_WIDTH: usize = 30;

pub open spec fn spaces(n: nat) -> Seq<char>
    decreases n,
{
    if n == 0 {
        Seq::empty()
    } else {
        spaces((n - 1) as nat).push(' ')
    }
}

/// `name` padded with spaces on the right to `LABEL_NAME_WIDTH` characters,
/// then a tab and the role identifier.
pub open spec fn candidate_label(name: Seq<char>, role: Seq<char>) -> Seq<char> {
    let pad: nat = if name.len() < LABEL_NAME_WIDTH {
        (LABEL_NAME_WIDTH - name.len()) as nat
    } else {
        0
    };
    name + spaces(pad) + "\t"@ + role
}

fn candidate_line(name: &str, role: &str) -> (r: String)
    ensures
        r@ == candidate_label(name@, role@),
{
    let mut r = String::from_str(name);
    let n = name.unicode_len();
    let mut k: usize = n;
    let ghost pad: nat = if name@.len() < LABEL_NAME_WIDTH {
        (LABEL_NAME_WIDTH - name@.len()) as nat
    } else {
        0
    };
    while k < LABEL_NAME_WIDTH
        invariant
            n == name@.len(),
            n <= k || k == n,
            r@ == name@ + spaces((if k > n { k - n } else { 0 }) as nat),
            pad == (if n < LABEL_NAME_WIDTH { (LABEL_NAME_WIDTH - n) as nat } else { 0 }),
            k >= n,
            n < LABEL_NAME_WIDTH ==> k <= LABEL_NAME_WIDTH,
            n >= LABEL_NAME_WIDTH ==> k == n,
        decreases LABEL_NAME_WIDTH - k,
    {
        r.append(" ");
        proof {
            reveal_strlit(" ");
            assert(spaces((k + 1 - n) as nat) == spaces((k - n) as nat).push(' '));
        }
        k = k + 1;
    }
    assert((if k > n { k - n } else { 0 }) == pad);
    r.append("\t");
    r.append(role);
    r
}

/// `c` offers the profile `k` of `m`.
pub open spec fn offers(m: Map<Seq<char>, Seq<char>>, c: Candidate, k: Seq<char>) -> bool {
    c.name@ == k && m.contains_key(k) && c.role_arn@ == m[k] && c.label@ == candidate_label(k, m[k])
}

/// The candidates offer the profiles of `m`, each exactly once.
pub open spec fn candidates_cover(m: Map<Seq<char>, Seq<char>>, c: Seq<Candidate>) -> bool {
    &&& forall|i: int| 0 <= i < c.len() ==> offers(m, #[trigger] c[i], c[i].name@)
    &&& forall|i: int, j: int|
        0 <= i < j < c.len() ==> #[trigger] c[i].name@ != #[trigger] c[j].name@
    &&& forall|k: Seq<char>|
        m.contains_key(k) ==> exists|i: int| 0 <= i < c.len() && offers(m, #[trigger] c[i], k)
}

impl ProfileTable {
    pub closed spec fn pairs(&self) -> Seq<(Seq<char>, Seq<char>)> {
        self.entries@.map_values(|p: Profile| (p.name@, p.role_arn@))
    }

    pub closed spec fn wf(&self) -> bool {
        names_unique(self.pairs())
    }

    /// Profile names mapped to role identifiers.
    pub closed spec fn view(&self) -> Map<Seq<char>, Seq<char>> {
        pairs_map(self.pairs())
    }

    /// A table that has no profile.
    pub fn new() -> (r: ProfileTable)
        ensures
            r.wf(),
            r@ == Map::<Seq<char>, Seq<char>>::empty(),
    {
        let r = ProfileTable { entries: Vec::new() };
        assert(r.pairs() =~= Seq::empty());
        r
    }

    fn find(&self, name: &str) -> (r: Option<usize>)
        requires
            self.wf(),
        ensures
            match r {
                Some(i) => i < self.entries@.len() && self.pairs()[i as int].0 == name@,
                None => forall|i: int| 0 <= i < self.pairs().len() ==> #[trigger] self.pairs()[i].0 != name@,
            },
    {
        let mut i: usize = 0;
        while i < self.entries.len()
            invariant
                i <= self.entries@.len(),
                self.pairs().len() == self.entries@.len(),
                forall|j: int| 0 <= j < i ==> #[trigger] self.pairs()[j].0 != name@,
            decreases self.entries@.len() - i,
        {
            if same_text(self.entries[i].name.as_str(), name) {
                return Some(i);
            }
            i = i + 1;
        }
        None
    }

    /// Adds a profile, replacing the role of a profile of the same name.
    pub fn insert(&mut self, name: String, role_arn: String)
        requires
            old(self).wf(),
        ensures
            final(self).wf(),
            final(self)@ == old(self)@.insert(name@, role_arn@),
    {
        match self.find(name.as_str()) {
            Some(i) => {
                proof {
                    lemma_pairs_map_update(self.pairs(), i as int, role_arn@);
                }
                let ghost before = self.pairs();
                self.entries.set(i, Profile { name, role_arn });
                assert(self.pairs() =~= before.update(i as int, (before[i as int].0, role_arn@)));
            },
            None => {
                let ghost before = self.pairs();
                self.entries.push(Profile { name, role_arn });
                assert(self.pairs().drop_last() =~= before);
                assert(self.pairs() =~= before.push((name@, role_arn@)));
            },
        }
    }

    /// The table that a list of `(name, role)` pairs describes, a later pair
    /// replacing an earlier one of the same name.
    pub fn from_pairs(pairs: Vec<(String, String)>) -> (r: ProfileTable)
        ensures
            r.wf(),
            r@ == pairs_map(pairs@.map_values(|p: (String, String)| (p.0@, p.1@))),
    {
        let ghost views = pairs@.map_values(|p: (String, String)| (p.0@, p.1@));
        let mut table = ProfileTable::new();
        let n = pairs.len();
        let mut i: usize = 0;
        assert(views.subrange(0, 0) =~= Seq::<(Seq<char>, Seq<char>)>::empty());
        while i < n
            invariant
                n == views.len() == pairs@.len(),
                i <= n,
                views == pairs@.map_values(|p: (String, String)| (p.0@, p.1@)),
                table.wf(),
                table@ == pairs_map(views.subrange(0, i as int)),
            decreases n - i,
        {
            let name = pairs[i].0.clone();
            let role = pairs[i].1.clone();
            assert(views.subrange(0, i + 1).drop_last() =~= views.subrange(0, i as int));
            table.insert(name, role);
            i = i + 1;
        }
        assert(views.subrange(0, n as int) =~= views);
        table
    }

    /// The role of the profile `name`, or `ProfileNotFound` naming it.
    pub fn lookup(&self, name: &str) -> (r: Result<String, ConfigError>)
        requires
            self.wf(),
        ensures
            self@.contains_key(name@) ==> (r matches Ok(a) && a@ == self@[name@]),
            !self@.contains_key(name@) ==> (r matches Err(ConfigError::ProfileNotFound(m))
                && m@ == name@),
    {
        match self.find(name) {
            Some(i) => {
                proof {
                    lemma_pairs_map_at(self.pairs(), i as int);
                }
                Ok(self.entries[i].role_arn.clone())
            },
            None => {
                proof {
                    lemma_pairs_map_absent(self.pairs(), name@);
                }
                Err(ConfigError::ProfileNotFound(String::from_str(name)))
            },
        }
    }

    /// One choice per profile for the interactive picker.
    pub fn candidates(&self) -> (r: Vec<Candidate>)
        requires
            self.wf(),
        ensures
            candidates_cover(self@, r@),
    {
        let mut r: Vec<Candidate> = Vec::new();
        let mut i: usize = 0;
        while i < self.entries.len()
            invariant
                i <= self.entries@.len(),
                self.wf(),
                self.pairs().len() == self.entries@.len(),
                r@.len() == i,
                forall|j: int|
                    0 <= j < i ==> #[trigger] r@[j].role_arn@ == self.pairs()[j].1 && r@[j].label@
                        == candidate_label(self.pairs()[j].0, self.pairs()[j].1) && r@[j].name@
                        == self.pairs()[j].0,
            decreases self.entries@.len() - i,
        {
            let p = &self.entries[i];
            let label = candidate_line(p.name.as_str(), p.role_arn.as_str());
            r.push(Candidate { name: p.name.clone(), label, role_arn: p.role_arn.clone() });
            i = i + 1;
        }
        let ghost m = self@;
        let ghost ps = self.pairs();
        assert forall|j: int| 0 <= j < r@.len() implies offers(m, #[trigger] r@[j], r@[j].name@) by {
            lemma_pairs_map_at(ps, j);
            assert(r@[j].role_arn@ == ps[j].1);
        }
        assert forall|a: int, b: int| 0 <= a < b < r@.len() implies #[trigger] r@[a].name@
            != #[trigger] r@[b].name@ by {
            assert(r@[a].role_arn@ == ps[a].1);
            assert(r@[b].role_arn@ == ps[b].1);
        }
        assert forall|k: Seq<char>| m.contains_key(k) implies exists|i: int|
            0 <= i < r@.len() && offers(m, #[trigger] r@[i], k) by {
            if forall|j: int| 0 <= j < ps.len() ==> #[trigger] ps[j].0 != k {
                lemma_pairs_map_absent(ps, k);
            }
            let j = choose|j: int| 0 <= j < ps.len() && #[trigger] ps[j].0 == k;
            lemma_pairs_map_at(ps, j);
            assert(r@[j].role_arn@ == ps[j].1);
            assert(offers(m, r@[j], k));
        }
        r
    }
}

} // verus!
