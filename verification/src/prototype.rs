//! A registry of prototype websites: a website carries its attributes as a
//! key-value table, and the registry can clone a registered website under
//! new attributes.

use vstd::prelude::*;

use crate::text::{sort_strings, sorted_le};

verus! {

/// Key-value pairs applied to a map, first to last; a later pair with the
/// same key wins.
pub open spec fn apply_kv<V>(m: Map<Seq<char>, V>, pairs: Seq<(String, V)>) -> Map<Seq<char>, V>
    decreases pairs.len(),
{
    if pairs.len() == 0 {
        m
    } else {
        apply_kv(m.insert(pairs[0].0@, pairs[0].1), pairs.skip(1))
    }
}

/// The map of a plain entry list.
pub open spec fn kv_map<V>(pairs: Seq<(String, V)>) -> Map<Seq<char>, V> {
    apply_kv(Map::<Seq<char>, V>::empty(), pairs)
}

/// No key occurs twice among the entries.
pub open spec fn keys_unique<V>(s: Seq<(String, V)>) -> bool {
    forall|i: int, j: int| 0 <= i < j < s.len() ==> (#[trigger] s[i]).0@ != (#[trigger] s[j]).0@
}

/// Applying one more pair at the end inserts it on top of the rest.
pub proof fn lemma_apply_kv_push<V>(m: Map<Seq<char>, V>, s: Seq<(String, V)>, x: (String, V))
    ensures
        apply_kv(m, s.push(x)) == apply_kv(m, s).insert(x.0@, x.1),
    decreases s.len(),
{
    if s.len() == 0 {
        assert(s.push(x)[0] == x);
        assert(s.push(x).skip(1) =~= Seq::<(String, V)>::empty());
        assert(apply_kv(m, s.push(x)) == apply_kv(
            m.insert(s.push(x)[0].0@, s.push(x)[0].1),
            s.push(x).skip(1),
        ));
        assert(apply_kv(m, s.push(x)) == m.insert(x.0@, x.1));
        assert(apply_kv(m, s) == m);
    } else {
        assert(s.push(x)[0] == s[0]);
        assert(s.push(x).skip(1) =~= s.skip(1).push(x));
        lemma_apply_kv_push(m.insert(s[0].0@, s[0].1), s.skip(1), x);
        assert(apply_kv(m, s.push(x)) == apply_kv(
            m.insert(s.push(x)[0].0@, s.push(x)[0].1),
            s.push(x).skip(1),
        ));
        assert(apply_kv(m, s) == apply_kv(m.insert(s[0].0@, s[0].1), s.skip(1)));
    }
}

/// What the applied map holds at one key: the value of the last pair with
/// that key, else whatever the base map held there.
pub proof fn lemma_apply_kv_lookup<V>(m: Map<Seq<char>, V>, s: Seq<(String, V)>, key: Seq<char>)
    ensures
        apply_kv(m, s).contains_key(key) <==> (m.contains_key(key) || exists|i: int|
            0 <= i < s.len() && (#[trigger] s[i]).0@ == key),
        forall|i: int|
            (0 <= i < s.len() && (#[trigger] s[i]).0@ == key && (forall|j: int|
                i < j < s.len() ==> (#[trigger] s[j]).0@ != key)) ==> (apply_kv(
                m,
                s,
            ).contains_key(key) && apply_kv(m, s)[key] == s[i].1),
        (forall|i: int| 0 <= i < s.len() ==> (#[trigger] s[i]).0@ != key) ==> (apply_kv(
            m,
            s,
        ).contains_key(key) == m.contains_key(key) && (m.contains_key(key) ==> apply_kv(m, s)[key]
            == m[key])),
    decreases s.len(),
{
    if s.len() > 0 {
        let m1 = m.insert(s[0].0@, s[0].1);
        let t = s.skip(1);
        lemma_apply_kv_lookup(m1, t, key);
        assert(forall|j: int| 0 <= j < t.len() ==> t[j] == s[j + 1]);
        assert forall|i: int|
            (0 <= i < s.len() && (#[trigger] s[i]).0@ == key && (forall|j: int|
                i < j < s.len() ==> (#[trigger] s[j]).0@ != key)) implies (apply_kv(
            m,
            s,
        ).contains_key(key) && apply_kv(m, s)[key] == s[i].1) by {
            if i == 0 {
                assert(forall|j: int| 0 <= j < t.len() ==> (#[trigger] t[j]).0@ != key);
            } else {
                assert(t[i - 1].0@ == key);
                assert(forall|j: int| i - 1 < j < t.len() ==> (#[trigger] t[j]).0@ != key);
            }
        }
        if exists|i: int| 0 <= i < s.len() && (#[trigger] s[i]).0@ == key {
            let i = choose|i: int| 0 <= i < s.len() && (#[trigger] s[i]).0@ == key;
            if i > 0 {
                assert(t[i - 1].0@ == key);
            }
            assert(apply_kv(m, s).contains_key(key));
        }
        if apply_kv(m, s).contains_key(key) && !m.contains_key(key) && !(exists|i: int|
            0 <= i < s.len() && (#[trigger] s[i]).0@ == key) {
            assert(!m1.contains_key(key));
            assert(forall|j: int| 0 <= j < t.len() ==> (#[trigger] t[j]).0@ != key);
            assert(false);
        }
    }
}

/// Removing the only entry of a key takes exactly that key out of the map.
pub proof fn lemma_apply_kv_remove<V>(s: Seq<(String, V)>, i: int)
    requires
        keys_unique(s),
        0 <= i < s.len(),
    ensures
        kv_map(s.remove(i)) == kv_map(s).remove(s[i].0@),
{
    let key = s[i].0@;
    let s2 = s.remove(i);
    let lhs = kv_map(s2);
    let rhs = kv_map(s).remove(key);
    assert(forall|t: int| 0 <= t < i ==> s2[t] == s[t]);
    assert(forall|t: int| i <= t < s2.len() ==> s2[t] == s[t + 1]);
    assert forall|k: Seq<char>|
        #![trigger lhs.contains_key(k)]
        #![trigger rhs.contains_key(k)]
        lhs.contains_key(k) == rhs.contains_key(k) && (lhs.contains_key(k) ==> lhs[k]
            == rhs[k]) by {
        lemma_apply_kv_lookup(Map::<Seq<char>, V>::empty(), s2, k);
        lemma_apply_kv_lookup(Map::<Seq<char>, V>::empty(), s, k);
        if k == key {
            assert forall|t: int| 0 <= t < s2.len() implies (#[trigger] s2[t]).0@ != k by {
                if t < i {
                } else {
                    assert(s2[t] == s[t + 1]);
                }
            }
            assert(!lhs.contains_key(k));
        } else {
            if exists|t: int| 0 <= t < s.len() && (#[trigger] s[t]).0@ == k {
                let t = choose|t: int| 0 <= t < s.len() && (#[trigger] s[t]).0@ == k;
                assert(forall|j: int| t < j < s.len() ==> (#[trigger] s[j]).0@ != k);
                let t2: int = if t < i {
                    t
                } else {
                    t - 1
                };
                assert(s2[t2].0@ == k);
                assert(forall|j: int| t2 < j < s2.len() ==> (#[trigger] s2[j]).0@ != k);
                assert(lhs.contains_key(k) && lhs[k] == s[t].1);
                assert(rhs.contains_key(k) && rhs[k] == s[t].1);
            } else {
                assert forall|t: int| 0 <= t < s2.len() implies (#[trigger] s2[t]).0@ != k by {
                    if t < i {
                    } else {
                        assert(s2[t] == s[t + 1]);
                    }
                }
                assert(!lhs.contains_key(k));
                assert(!rhs.contains_key(k));
            }
        }
    }
    assert(lhs =~= rhs);
}

/// Replaces the value of `key` among the entries, or appends the pair when
/// the key is new; the entries' map gains exactly that binding, and unique
/// keys stay unique.
fn upsert<V>(entries: &mut Vec<(String, V)>, key: String, value: V)
    requires
        keys_unique(old(entries)@),
    ensures
        keys_unique(final(entries)@),
        kv_map(final(entries)@) == kv_map(old(entries)@).insert(key@, value),
        final(entries)@ == old(entries)@.push((key, value)) || exists|i: int|
            0 <= i < old(entries)@.len() && final(entries)@ == old(entries)@.remove(i).push(
                (key, value),
            ),
{
    let n = entries.len();
    let mut i: usize = 0;
    while i < n
        invariant
            i <= n,
            *entries == *old(entries),
            keys_unique(entries@),
            n == entries@.len(),
            forall|t: int| 0 <= t < i ==> (#[trigger] entries@[t]).0@ != key@,
        decreases n - i,
    {
        if entries[i].0 == key {
            let ghost ii = i as int;
            let ghost s = entries@;
            let _ = entries.remove(i);
            proof {
                lemma_apply_kv_remove(s, ii);
                assert forall|t: int|
                    0 <= t < entries@.len() implies (#[trigger] entries@[t]).0@ != key@ by {
                    if t < ii {
                    } else {
                        assert(entries@[t] == s[t + 1]);
                    }
                }
            }
            let ghost s2 = entries@;
            entries.push((key, value));
            proof {
                lemma_apply_kv_push(
                    Map::<Seq<char>, V>::empty(),
                    s2,
                    final(entries)@[s2.len() as int],
                );
                assert(s2.push(final(entries)@[s2.len() as int]) =~= final(entries)@);
                assert(kv_map(s).remove(key@).insert(key@, value) =~= kv_map(s).insert(
                    key@,
                    value,
                ));
            }
            return ;
        }
        i = i + 1;
    }
    let ghost s = entries@;
    entries.push((key, value));
    proof {
        lemma_apply_kv_push(Map::<Seq<char>, V>::empty(), s, final(entries)@[s.len() as int]);
        assert(s.push(final(entries)@[s.len() as int]) =~= final(entries)@);
    }
}

/// A website: its attributes as key-value entries with unique keys.
pub struct Website {
    info: Vec<(String, String)>,
}

impl Website {
    /// The attribute entries, in storage order.
    pub closed spec fn spec_entries(&self) -> Seq<(String, String)> {
        self.info@
    }

    /// The website's attributes as a map.
    pub open spec fn spec_map(&self) -> Map<Seq<char>, String> {
        kv_map(self.spec_entries())
    }

    /// The attribute keys are unique.
    pub open spec fn wf(&self) -> bool {
        keys_unique(self.spec_entries())
    }

    /// A website with the four default attributes, then the additional ones
    /// applied on top, a later pair overwriting an earlier key.
    pub fn new(
        name: String,
        domain: String,
        description: String,
        author: String,
        add_info: Vec<(String, String)>,
    ) -> (w: Website)
        ensures
            w.wf(),
            w.spec_map() == apply_kv(
                Map::<Seq<char>, String>::empty().insert("name"@, name).insert(
                    "domain"@,
                    domain,
                ).insert("description"@, description).insert("author"@, author),
                add_info@,
            ),
    {
        let ghost base = Map::<Seq<char>, String>::empty().insert("name"@, name).insert(
            "domain"@,
            domain,
        ).insert("description"@, description).insert("author"@, author);
        let mut info: Vec<(String, String)> = Vec::new();
        proof {
            assert(info@ =~= Seq::<(String, String)>::empty());
            assert(kv_map(info@) == Map::<Seq<char>, String>::empty());
        }
        upsert(&mut info, String::from_str("name"), name);
        upsert(&mut info, String::from_str("domain"), domain);
        upsert(&mut info, String::from_str("description"), description);
        upsert(&mut info, String::from_str("author"), author);
        let n = add_info.len();
        let mut i: usize = 0;
        proof {
            assert(add_info@.take(0) =~= Seq::<(String, String)>::empty());
        }
        while i < n
            invariant
                i <= n,
                n == add_info@.len(),
                keys_unique(info@),
                kv_map(info@) == apply_kv(base, add_info@.take(i as int)),
            decreases n - i,
        {
            let pair = (add_info[i].0.clone(), add_info[i].1.clone());
            upsert(&mut info, pair.0, pair.1);
            proof {
                lemma_apply_kv_push(base, add_info@.take(i as int), add_info@[i as int]);
                assert(add_info@.take(i as int).push(add_info@[i as int]) =~= add_info@.take(
                    i as int + 1,
                ));
            }
            i = i + 1;
        }
        proof {
            assert(add_info@.take(n as int) =~= add_info@);
        }
        Website { info }
    }

    /// The value of one attribute, if the website has it.
    pub fn get(&self, key: &String) -> (r: Option<&String>)
        requires
            self.wf(),
        ensures
            match r {
                Some(v) => self.spec_map().contains_key(key@) && *v == self.spec_map()[key@],
                None => !self.spec_map().contains_key(key@),
            },
    {
        let n = self.info.len();
        let mut i: usize = 0;
        while i < n
            invariant
                i <= n,
                self.wf(),
                n == self.info@.len(),
                forall|t: int| 0 <= t < i ==> (#[trigger] self.info@[t]).0@ != key@,
            decreases n - i,
        {
            if self.info[i].0 == *key {
                proof {
                    lemma_apply_kv_lookup(
                        Map::<Seq<char>, String>::empty(),
                        self.spec_entries(),
                        key@,
                    );
                    assert(forall|j: int|
                        i < j < self.spec_entries().len() ==> (#[trigger] self.spec_entries()[j]).0@
                            != key@);
                }
                return Some(&self.info[i].1);
            }
            i = i + 1;
        }
        proof {
            lemma_apply_kv_lookup(Map::<Seq<char>, String>::empty(), self.spec_entries(), key@);
        }
        None
    }
}

/// One line per listed attribute key, in list order, the name left out:
/// the key, a colon and space, the attribute's value, and a line break.
pub open spec fn info_lines(m: Map<Seq<char>, String>, keys: Seq<Seq<char>>) -> Seq<char>
    decreases keys.len(),
{
    if keys.len() == 0 {
        Seq::empty()
    } else if keys[0] == "name"@ {
        info_lines(m, keys.skip(1))
    } else {
        keys[0] + ": "@ + (if m.contains_key(keys[0]) {
            m[keys[0]]@
        } else {
            Seq::<char>::empty()
        }) + "\n"@ + info_lines(m, keys.skip(1))
    }
}

impl Website {
    /// The attribute keys, in storage order.
    pub open spec fn spec_keys(&self) -> Seq<Seq<char>> {
        self.spec_entries().map_values(|p: (String, String)| p.0@)
    }

    /// The attribute keys, cloned, in storage order.
    pub fn keys(&self) -> (r: Vec<String>)
        ensures
            r.deep_view() == self.spec_keys(),
    {
        let mut r: Vec<String> = Vec::new();
        let n = self.info.len();
        let mut i: usize = 0;
        while i < n
            invariant
                i <= n,
                n == self.info@.len(),
                r@.len() == i,
                forall|t: int| 0 <= t < i ==> r.deep_view()[t] == (#[trigger] self.info@[t]).0@,
            decreases n - i,
        {
            let ghost prev = r;
            r.push(self.info[i].0.clone());
            proof {
                assert forall|t: int| 0 <= t < i + 1 implies r.deep_view()[t] == (
                #[trigger] self.info@[t]).0@ by {
                    if t < i {
                        assert(r@[t] == prev@[t]);
                        assert(prev.deep_view()[t] == self.info@[t].0@);
                    } else {
                        assert(r@[t]@ == self.info@[t].0@);
                    }
                }
            }
            i = i + 1;
        }
        proof {
            assert(r.deep_view() =~~= self.spec_keys());
        }
        r
    }

    /// Describes the website: its name on the first line, then every other
    /// attribute on a line of its own, the keys in lexicographic order.
    pub fn get_info(&self) -> (r: String)
        requires
            self.wf(),
            self.spec_map().contains_key("name"@),
        ensures
            exists|ks: Seq<Seq<char>>|
                {
                    &&& ks.to_multiset() == self.spec_keys().to_multiset()
                    &&& sorted_le(ks)
                    &&& r@ == "Website: \""@ + self.spec_map()["name"@]@ + "\"\n"@ + info_lines(
                        self.spec_map(),
                        ks,
                    )
                },
    {
        broadcast use vstd::seq_lib::group_to_multiset_ensures;

        let keys = sorted_keys(self);
        let name_key = String::from_str("name");
        let name = match self.get(&name_key) {
            Some(v) => v,
            None => vstd::pervasive::unreached(),
        };
        let mut out = String::from_str("Website: \"");
        out.append(name.as_str());
        out.append("\"\n");
        let ghost header = out@;
        let ghost ks = keys.deep_view();
        let ghost m = self.spec_map();
        let n = keys.len();
        let mut i: usize = 0;
        proof {
            assert(ks.skip(0) =~= ks);
        }
        while i < n
            invariant
                i <= n,
                n == ks.len(),
                ks == keys.deep_view(),
                self.wf(),
                m == self.spec_map(),
                name_key@ == "name"@,
                ks.to_multiset() == self.spec_keys().to_multiset(),
                header + info_lines(m, ks) == out@ + info_lines(m, ks.skip(i as int)),
            decreases n - i,
        {
            broadcast use vstd::seq_lib::group_to_multiset_ensures;

            let ghost rest = ks.skip(i as int);
            proof {
                assert(rest[0] == ks[i as int]);
                assert(rest.skip(1) =~= ks.skip(i as int + 1));
                assert(ks[i as int] == keys@[i as int]@);
            }
            let key = &keys[i];
            if *key == name_key {
                proof {
                    assert(info_lines(m, rest) == info_lines(m, rest.skip(1)));
                }
            } else {
                let ghost out0 = out@;
                proof {
                    assert(ks.contains(ks[i as int]));
                    assert(self.spec_keys().to_multiset().count(ks[i as int]) > 0);
                    assert(self.spec_keys().contains(ks[i as int]));
                    let t = choose|t: int|
                        0 <= t < self.spec_keys().len() && self.spec_keys()[t] == ks[i as int];
                    assert(self.spec_entries()[t].0@ == key@);
                    lemma_apply_kv_lookup(
                        Map::<Seq<char>, String>::empty(),
                        self.spec_entries(),
                        key@,
                    );
                }
                out.append(key.as_str());
                out.append(": ");
                match self.get(key) {
                    Some(v) => {
                        out.append(v.as_str());
                    },
                    None => {
                        vstd::pervasive::unreached::<()>();
                    },
                }
                out.append("\n");
                proof {
                    assert(out0 + (rest[0] + ": "@ + m[rest[0]]@ + "\n"@ + info_lines(
                        m,
                        rest.skip(1),
                    )) =~= out0 + rest[0] + ": "@ + m[rest[0]]@ + "\n"@ + info_lines(
                        m,
                        rest.skip(1),
                    ));
                }
            }
            i = i + 1;
        }
        proof {
            assert(ks.skip(n as int) =~= Seq::<Seq<char>>::empty());
            assert(out@ + Seq::<char>::empty() =~= out@);
        }
        out
    }
}

/// The attribute keys of a website, in lexicographic order.
pub fn sorted_keys(website: &Website) -> (r: Vec<String>)
    ensures
        r.deep_view().to_multiset() == website.spec_keys().to_multiset(),
        sorted_le(r.deep_view()),
{
    let keys = website.keys();
    sort_strings(&keys)
}

impl Clone for Website {
    /// A copy with the same attribute entries.
    fn clone(&self) -> (r: Self)
        ensures
            r.spec_entries() == self.spec_entries(),
    {
        let mut info: Vec<(String, String)> = Vec::new();
        let n = self.info.len();
        let mut i: usize = 0;
        while i < n
            invariant
                i <= n,
                n == self.info@.len(),
                info@ == self.info@.subrange(0, i as int),
            decreases n - i,
        {
            info.push((self.info[i].0.clone(), self.info[i].1.clone()));
            assert(info@ =~= self.info@.subrange(0, i as int + 1));
            i = i + 1;
        }
        assert(info@ =~= self.info@);
        Website { info }
    }
}

/// The registry of prototype websites, by identifier.
pub struct Prototype {
    objects: Vec<(String, Website)>,
}

impl Prototype {
    /// The registered websites, in registration order.
    pub closed spec fn spec_entries(&self) -> Seq<(String, Website)> {
        self.objects@
    }

    /// The registry as a map from identifier to website.
    pub open spec fn spec_map(&self) -> Map<Seq<char>, Website> {
        kv_map(self.spec_entries())
    }

    /// Identifiers are unique and every registered website is well formed.
    pub open spec fn wf(&self) -> bool {
        keys_unique(self.spec_entries()) && forall|i: int|
            0 <= i < self.spec_entries().len() ==> (#[trigger] self.spec_entries()[i]).1.wf()
    }

    /// An empty registry.
    pub fn new() -> (p: Prototype)
        ensures
            p.wf(),
            p.spec_map() == Map::<Seq<char>, Website>::empty(),
    {
        let p = Prototype { objects: Vec::new() };
        proof {
            assert(p.spec_entries() =~= Seq::<(String, Website)>::empty());
        }
        p
    }

    /// Registers a website under an identifier, replacing any website that
    /// identifier held.
    pub fn register(&mut self, identifier: String, obj: Website)
        requires
            old(self).wf(),
            obj.wf(),
        ensures
            final(self).wf(),
            final(self).spec_map() == old(self).spec_map().insert(identifier@, obj),
    {
        upsert_obj(&mut self.objects, identifier, obj);
    }

    /// Takes the website of an identifier out of the registry; a registry
    /// without that identifier stays as it is.
    pub fn unregister(&mut self, identifier: String)
        requires
            old(self).wf(),
        ensures
            final(self).wf(),
            final(self).spec_map() == old(self).spec_map().remove(identifier@),
    {
        let n = self.objects.len();
        let mut i: usize = 0;
        while i < n
            invariant
                i <= n,
                *self == *old(self),
                old(self).wf(),
                n == self.objects@.len(),
                forall|t: int| 0 <= t < i ==> (#[trigger] self.objects@[t]).0@ != identifier@,
            decreases n - i,
        {
            if self.objects[i].0 == identifier {
                let ghost ii = i as int;
                let ghost s = self.objects@;
                let _ = self.objects.remove(i);
                proof {
                    lemma_apply_kv_remove(s, ii);
                    assert forall|a: int, b: int|
                        0 <= a < b < self.objects@.len() implies (#[trigger] self.objects@[a]).0@
                        != (#[trigger] self.objects@[b]).0@ by {
                        let a0: int = if a < ii {
                            a
                        } else {
                            a + 1
                        };
                        let b0: int = if b < ii {
                            b
                        } else {
                            b + 1
                        };
                        assert(self.objects@[a] == s[a0] && self.objects@[b] == s[b0]);
                    }
                    assert forall|t: int|
                        0 <= t < self.objects@.len() implies (#[trigger] self.objects@[t]).1.wf() by {
                        if t < ii {
                            assert(self.objects@[t] == s[t]);
                        } else {
                            assert(self.objects@[t] == s[t + 1]);
                        }
                    }
                }
                return ;
            }
            i = i + 1;
        }
        proof {
            lemma_apply_kv_lookup(Map::<Seq<char>, Website>::empty(), self.spec_entries(), identifier@);
            assert(old(self).spec_map().remove(identifier@) =~= old(self).spec_map());
        }
    }

    /// A copy of the website of an identifier, with the new attributes
    /// applied on top; an unknown identifier is reported in the error text.
    pub fn clone(&mut self, identifier: String, new_infos: Vec<(String, String)>) -> (r: Result<
        Website,
        String,
    >)
        requires
            old(self).wf(),
        ensures
            *final(self) == *old(self),
            match r {
                Ok(w) => {
                    &&& old(self).spec_map().contains_key(identifier@)
                    &&& w.wf()
                    &&& w.spec_map() == apply_kv(
                        old(self).spec_map()[identifier@].spec_map(),
                        new_infos@,
                    )
                },
                Err(msg) => !old(self).spec_map().contains_key(identifier@) && msg@
                    == "Incorrect object identifier: "@ + identifier@,
            },
    {
        let n = self.objects.len();
        let mut i: usize = 0;
        while i < n
            invariant
                i <= n,
                *self == *old(self),
                old(self).wf(),
                n == self.objects@.len(),
                forall|t: int| 0 <= t < i ==> (#[trigger] self.objects@[t]).0@ != identifier@,
            decreases n - i,
        {
            if self.objects[i].0 == identifier {
                proof {
                    lemma_apply_kv_lookup(
                        Map::<Seq<char>, Website>::empty(),
                        self.spec_entries(),
                        identifier@,
                    );
                    assert(forall|j: int|
                        i < j < self.spec_entries().len() ==> (#[trigger] self.spec_entries()[j]).0@
                            != identifier@);
                    assert(self.spec_map()[identifier@] == self.spec_entries()[i as int].1);
                }
                let ghost found = self.spec_entries()[i as int].1;
                let mut new_obj = self.objects[i].1.clone();
                let ghost base = found.spec_map();
                let m = new_infos.len();
                let mut j: usize = 0;
                proof {
                    assert(new_infos@.take(0) =~= Seq::<(String, String)>::empty());
                }
                while j < m
                    invariant
                        j <= m,
                        m == new_infos@.len(),
                        keys_unique(new_obj.info@),
                        kv_map(new_obj.info@) == apply_kv(base, new_infos@.take(j as int)),
                    decreases m - j,
                {
                    let pair = (new_infos[j].0.clone(), new_infos[j].1.clone());
                    upsert(&mut new_obj.info, pair.0, pair.1);
                    proof {
                        lemma_apply_kv_push(base, new_infos@.take(j as int), new_infos@[j as int]);
                        assert(new_infos@.take(j as int).push(new_infos@[j as int])
                            =~= new_infos@.take(j as int + 1));
                    }
                    j = j + 1;
                }
                proof {
                    assert(new_infos@.take(m as int) =~= new_infos@);
                }
                return Ok(new_obj);
            }
            i = i + 1;
        }
        proof {
            lemma_apply_kv_lookup(
                Map::<Seq<char>, Website>::empty(),
                self.spec_entries(),
                identifier@,
            );
        }
        Err(String::from_str("Incorrect object identifier: ").concat(identifier.as_str()))
    }
}

/// `upsert`, for the registry's website entries, carrying the websites'
/// own well-formedness along.
fn upsert_obj(entries: &mut Vec<(String, Website)>, key: String, value: Website)
    requires
        keys_unique(old(entries)@),
        forall|i: int| 0 <= i < old(entries)@.len() ==> (#[trigger] old(entries)@[i]).1.wf(),
        value.wf(),
    ensures
        keys_unique(final(entries)@),
        forall|i: int| 0 <= i < final(entries)@.len() ==> (#[trigger] final(entries)@[i]).1.wf(),
        kv_map(final(entries)@) == kv_map(old(entries)@).insert(key@, value),
{
    let ghost s0 = entries@;
    let ghost kv = (key, value);
    upsert(entries, key, value);
    proof {
        assert forall|i: int|
            0 <= i < final(entries)@.len() implies (#[trigger] final(entries)@[i]).1.wf() by {
            if s0.len() < final(entries)@.len() {
                if i < s0.len() {
                    assert(final(entries)@[i] == s0[i]);
                } else {
                    assert(final(entries)@[i] == kv);
                }
            } else {
                let t = choose|t: int|
                    0 <= t < s0.len() && final(entries)@ == s0.remove(t).push(kv);
                if i == final(entries)@.len() - 1 {
                    assert(final(entries)@[i] == kv);
                } else if i < t {
                    assert(final(entries)@[i] == s0[i]);
                } else {
                    assert(final(entries)@[i] == s0[i + 1]);
                }
            }
        }
    }
}

} // verus!
