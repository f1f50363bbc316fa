//! Textures by name.
use vstd::prelude::*;
use vstd::string::StrSliceExecFns;
use crate::texture::Texture;

verus! {

/// Textures registered under distinct names.
pub struct TexturePool {
    pub entries: Vec<(String, Texture)>,
}

/// `s` holds exactly the characters of `t`.
fn same_name(s: &String, t: &str) -> (r: bool)
    ensures
        r == (s@ == t@),
{
    let a = s.as_str();
    let n = a.unicode_len();
    if n != t.unicode_len() {
        return false;
    }
    let mut i: usize = 0;
    while i < n
        invariant
            n == a@.len(),
            n == t@.len(),
            a@ == s@,
            0 <= i <= n,
            forall|j: int| 0 <= j < i ==> a@[j] == t@[j],
        decreases n - i,
    {
        if a.get_char(i) != t.get_char(i) {
            return false;
        }
        i = i + 1;
    }
    assert(a@ =~= t@);
    true
}

impl TexturePool {
    /// Name of entry `i`.
    pub open spec fn name_at(&self, i: int) -> Seq<char> {
        self.entries@[i].0@
    }

    /// No two entries share a name.
    pub open spec fn wf(&self) -> bool {
        forall|i: int, j: int|
            0 <= i < j < self.entries@.len() ==> #[trigger] self.name_at(i) != #[trigger] self.name_at(j)
    }

    /// Some entry is named `name`.
    pub open spec fn has(&self, name: Seq<char>) -> bool {
        exists|i: int| 0 <= i < self.entries@.len() && #[trigger] self.name_at(i) == name
    }

    /// The empty pool.
    pub fn new() -> (r: Self)
        ensures
            r.wf(),
            r.entries@.len() == 0,
    {
        Self { entries: Vec::new() }
    }

    /// Index of the entry named `name`.
    fn find(&self, name: &str) -> (r: Option<usize>)
        ensures
            match r {
                Some(i) => i < self.entries@.len() && self.name_at(i as int) == name@,
                None => !self.has(name@),
            },
    {
        let mut i: usize = 0;
        while i < self.entries.len()
            invariant
                0 <= i <= self.entries@.len(),
                forall|j: int| 0 <= j < i ==> #[trigger] self.name_at(j) != name@,
            decreases self.entries@.len() - i,
        {
            if same_name(&self.entries[i].0, name) {
                return Some(i);
            }
            i = i + 1;
        }
        None
    }

    /// Registers `texture` under `name`, replacing a texture of that name.
    pub fn register(&mut self, name: &str, texture: Texture)
        requires
            old(self).wf(),
        ensures
            final(self).wf(),
            final(self).has(name@),
            forall|i: int|
                #![trigger final(self).entries@[i]]
                0 <= i < final(self).entries@.len() && final(self).name_at(i) == name@
                    ==> final(self).entries@[i].1 == texture,
            forall|n: Seq<char>| n != name@ ==> (final(self).has(n) <==> old(self).has(n)),
            forall|i: int|
                #![trigger final(self).entries@[i]]
                0 <= i < old(self).entries@.len() && old(self).name_at(i) != name@
                    ==> final(self).entries@[i] == old(self).entries@[i],
    {
        match self.find(name) {
            Some(i) => {
                let ghost before = *self;
                self.entries.set(i, (name.to_owned(), texture));
                proof {
                    assert(self.name_at(i as int) == name@);
                    assert forall|k: int| 0 <= k < self.entries@.len() implies #[trigger] self.name_at(k) == before.name_at(k) by {}
                    assert forall|a: int, b: int| 0 <= a < b < self.entries@.len() implies #[trigger] self.name_at(a) != #[trigger] self.name_at(b) by {
                        assert(before.name_at(a) != before.name_at(b));
                    }
                    assert forall|k: int| #![trigger self.entries@[k]] 0 <= k < self.entries@.len() && self.name_at(k) == name@ implies self.entries@[k].1 == texture by {
                        if k != i {
                            if k < i {
                                assert(before.name_at(k) != before.name_at(i as int));
                            } else {
                                assert(before.name_at(i as int) != before.name_at(k));
                            }
                        }
                    }
                    assert forall|n: Seq<char>| n != name@ implies (self.has(n) <==> before.has(n)) by {
                        if self.has(n) {
                            let j = choose|j: int| 0 <= j < self.entries@.len() && #[trigger] self.name_at(j) == n;
                            assert(before.name_at(j) == n);
                        }
                        if before.has(n) {
                            let j = choose|j: int| 0 <= j < before.entries@.len() && #[trigger] before.name_at(j) == n;
                            assert(self.name_at(j) == n);
                        }
                    }
                }
            },
            None => {
                let ghost before = *self;
                self.entries.push((name.to_owned(), texture));
                proof {
                    let k = before.entries@.len() as int;
                    assert(self.name_at(k) == name@);
                    assert forall|m: int| #![trigger self.entries@[m]] 0 <= m < self.entries@.len() && self.name_at(m) == name@ implies self.entries@[m].1 == texture by {
                        if m < k {
                            assert(before.name_at(m) == name@);
                            assert(before.has(name@));
                        }
                    }
                    assert forall|n: Seq<char>| n != name@ implies (self.has(n) <==> before.has(n)) by {
                        if self.has(n) {
                            let j = choose|j: int| 0 <= j < self.entries@.len() && #[trigger] self.name_at(j) == n;
                            assert(before.name_at(j) == n);
                        }
                        if before.has(n) {
                            let j = choose|j: int| 0 <= j < before.entries@.len() && #[trigger] before.name_at(j) == n;
                            assert(self.name_at(j) == n);
                        }
                    }
                    assert forall|i: int, j: int| 0 <= i < j < self.entries@.len() implies #[trigger] self.name_at(i) != #[trigger] self.name_at(j) by {
                        if j == k {
                            assert(before.name_at(i) != name@);
                        } else {
                            assert(before.name_at(i) != before.name_at(j));
                        }
                    }
                }
            },
        }
    }

    /// The texture named `name`, if any.
    pub fn get(&self, name: &str) -> (r: Option<&Texture>)
        ensures
            r is Some <==> self.has(name@),
            r matches Some(t) ==> exists|i: int|
                0 <= i < self.entries@.len() && self.name_at(i) == name@ && *t == self.entries@[i].1,
    {
        match self.find(name) {
            Some(i) => Some(&self.entries[i].1),
            None => None,
        }
    }

    /// Some texture is named `name`.
    pub fn contains(&self, name: &str) -> (r: bool)
        ensures
            r == self.has(name@),
    {
        self.find(name).is_some()
    }

    /// The texture named `name`, which must be registered.
    pub fn get_or_panic(&self, name: &str) -> (r: &Texture)
        requires
            self.has(name@),
        ensures
            exists|i: int| 0 <= i < self.entries@.len() && self.name_at(i) == name@ && *r == self.entries@[i].1,
    {
        match self.find(name) {
            Some(i) => &self.entries[i].1,
            None => {
                proof {
                    assert(false);
                }
                &self.entries[0].1
            },
        }
    }
}

} // verus!
