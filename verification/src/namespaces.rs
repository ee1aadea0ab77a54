//! The namespace table that `@namespace` rules fill while the top-level
//! ordering window is open, and that selector parsing reads thereafter.
//!
//! A repeated declaration of a prefix replaces its binding in place, so the
//! last declaration of a prefix wins; lookup takes the first entry.

use vstd::prelude::*;

verus! {

/// A namespace prefix, as written before `|` in selectors.
#[derive(Debug, PartialEq)]
pub struct NamespacePrefix(pub String);

impl Clone for NamespacePrefix {
    fn clone(&self) -> (r: Self)
        ensures
            r == *self,
    {
        NamespacePrefix(self.0.clone())
    }
}

/// A namespace URI.
#[derive(Debug, PartialEq)]
pub struct NamespaceUrl(pub String);

impl Clone for NamespaceUrl {
    fn clone(&self) -> (r: Self)
        ensures
            r == *self,
    {
        NamespaceUrl(self.0.clone())
    }
}

/// First-match lookup of a prefix in an entry sequence, from index `i` on.
pub open spec fn lookup_from(
    entries: Seq<(NamespacePrefix, NamespaceUrl)>,
    prefix: Seq<char>,
    i: int,
) -> Option<Seq<char>>
    decreases entries.len() - i,
{
    if i < 0 || i >= entries.len() {
        None
    } else if entries[i].0.0@ == prefix {
        Some(entries[i].1.0@)
    } else {
        lookup_from(entries, prefix, i + 1)
    }
}

/// The first index at or after `i` whose entry declares the prefix, or the
/// length.
pub open spec fn find_prefix(
    entries: Seq<(NamespacePrefix, NamespaceUrl)>,
    prefix: Seq<char>,
    i: int,
) -> int
    decreases entries.len() - i,
{
    if i < 0 || i >= entries.len() {
        i
    } else if entries[i].0.0@ == prefix {
        i
    } else {
        find_prefix(entries, prefix, i + 1)
    }
}

pub proof fn lemma_find_prefix(
    entries: Seq<(NamespacePrefix, NamespaceUrl)>,
    prefix: Seq<char>,
    i: int,
)
    requires
        0 <= i <= entries.len(),
    ensures
        i <= find_prefix(entries, prefix, i) <= entries.len(),
        find_prefix(entries, prefix, i) < entries.len() ==> entries[find_prefix(
            entries,
            prefix,
            i,
        )].0.0@ == prefix,
        forall|j: int| i <= j < find_prefix(entries, prefix, i) ==> entries[j].0.0@ != prefix,
    decreases entries.len() - i,
{
    if i < entries.len() && entries[i].0.0@ != prefix {
        lemma_find_prefix(entries, prefix, i + 1);
    }
}

/// Lookup succeeds exactly where an entry for the prefix exists, with the
/// first such entry's URI.
pub proof fn lemma_find_lookup_agree(
    entries: Seq<(NamespacePrefix, NamespaceUrl)>,
    prefix: Seq<char>,
    i: int,
)
    requires
        0 <= i <= entries.len(),
    ensures
        find_prefix(entries, prefix, i) < entries.len() ==> lookup_from(entries, prefix, i)
            == Some(entries[find_prefix(entries, prefix, i)].1.0@),
        find_prefix(entries, prefix, i) == entries.len() ==> lookup_from(entries, prefix, i)
            is None,
    decreases entries.len() - i,
{
    if i < entries.len() && entries[i].0.0@ != prefix {
        lemma_find_lookup_agree(entries, prefix, i + 1);
    }
}

proof fn lemma_lookup_equal_suffix(
    e1: Seq<(NamespacePrefix, NamespaceUrl)>,
    e2: Seq<(NamespacePrefix, NamespaceUrl)>,
    prefix: Seq<char>,
    i: int,
)
    requires
        0 <= i,
        e1.len() == e2.len(),
        forall|j: int| i <= j < e1.len() ==> e1[j] == e2[j],
    ensures
        lookup_from(e1, prefix, i) == lookup_from(e2, prefix, i),
    decreases e1.len() - i,
{
    if i < e1.len() {
        lemma_lookup_equal_suffix(e1, e2, prefix, i + 1);
    }
}

/// One declaration changes exactly its own prefix's resolution: afterwards
/// that prefix resolves to the new URI and every other prefix resolves as
/// before, whether the entry was updated in place or appended.
pub proof fn lemma_lookup_after_update(
    entries: Seq<(NamespacePrefix, NamespaceUrl)>,
    p: NamespacePrefix,
    u: NamespaceUrl,
    q: Seq<char>,
)
    ensures
        ({
            let k = find_prefix(entries, p.0@, 0);
            let updated = if k < entries.len() {
                entries.update(k, (p, u))
            } else {
                entries.push((p, u))
            };
            &&& q == p.0@ ==> lookup_from(updated, q, 0) == Some(u.0@)
            &&& q != p.0@ ==> lookup_from(updated, q, 0) == lookup_from(entries, q, 0)
        }),
{
    lemma_find_prefix(entries, p.0@, 0);
    let k = find_prefix(entries, p.0@, 0);
    if k < entries.len() {
        let updated = entries.update(k, (p, u));
        lemma_lookup_after_in_place(entries, p, u, q, 0);
    } else {
        lemma_find_lookup_agree(entries, p.0@, 0);
        lemma_lookup_push(entries, (p, u), q);
    }
}

proof fn lemma_lookup_after_in_place(
    entries: Seq<(NamespacePrefix, NamespaceUrl)>,
    p: NamespacePrefix,
    u: NamespaceUrl,
    q: Seq<char>,
    i: int,
)
    requires
        0 <= i <= entries.len(),
        i <= find_prefix(entries, p.0@, 0) < entries.len(),
        entries[find_prefix(entries, p.0@, 0)].0.0@ == p.0@,
        forall|j: int| 0 <= j < find_prefix(entries, p.0@, 0) ==> entries[j].0.0@ != p.0@,
    ensures
        ({
            let k = find_prefix(entries, p.0@, 0);
            let updated = entries.update(k, (p, u));
            &&& q == p.0@ ==> lookup_from(updated, q, i) == Some(u.0@)
            &&& q != p.0@ ==> lookup_from(updated, q, i) == lookup_from(entries, q, i)
        }),
    decreases entries.len() - i,
{
    let k = find_prefix(entries, p.0@, 0);
    let updated = entries.update(k, (p, u));
    if i < k {
        assert(updated[i] == entries[i]);
        lemma_lookup_after_in_place(entries, p, u, q, i + 1);
    } else if i == k {
        assert(updated[k] == (p, u));
        if q == p.0@ {
        } else {
            assert(entries[k].0.0@ != q);
            assert forall|j: int| i + 1 <= j < entries.len() implies updated[j] == entries[j] by {}
            lemma_lookup_equal_suffix(updated, entries, q, i + 1);
        }
    }
}

/// The mapping from optional prefix to namespace URI.
#[derive(Debug, PartialEq)]
pub struct Namespaces {
    /// The no-prefix (default) namespace, if one was declared.
    pub default: Option<NamespaceUrl>,
    pub entries: Vec<(NamespacePrefix, NamespaceUrl)>,
}

impl Clone for Namespaces {
    fn clone(&self) -> (r: Self)
        ensures
            r.default == self.default,
            r.entries@ == self.entries@,
    {
        let mut entries: Vec<(NamespacePrefix, NamespaceUrl)> = Vec::new();
        let mut i: usize = 0;
        while i < self.entries.len()
            invariant
                0 <= i <= self.entries@.len(),
                entries@ =~= self.entries@.subrange(0, i as int),
            decreases self.entries@.len() - i,
        {
            let p = self.entries[i].0.clone();
            let u = self.entries[i].1.clone();
            entries.push((p, u));
            proof {
                assert(entries@ =~= self.entries@.subrange(0, i + 1));
            }
            i = i + 1;
        }
        let default = match &self.default {
            Some(u) => Some(u.clone()),
            None => None,
        };
        proof {
            assert(entries@ =~= self.entries@);
        }
        Namespaces { default, entries }
    }
}

impl Namespaces {
    /// The URI a prefix resolves to, or `None` where no such prefix was
    /// declared.
    pub open spec fn spec_lookup(self, prefix: Seq<char>) -> Option<Seq<char>> {
        lookup_from(self.entries@, prefix, 0)
    }

    pub fn empty() -> (r: Namespaces)
        ensures
            r.default is None,
            r.entries@.len() == 0,
    {
        Namespaces { default: None, entries: Vec::new() }
    }

    /// The declared default (no-prefix) namespace.
    pub fn default_namespace(&self) -> (r: Option<NamespaceUrl>)
        ensures
            r == self.default,
    {
        match &self.default {
            Some(u) => Some(u.clone()),
            None => None,
        }
    }

    /// Resolves a prefix against the table.
    pub fn namespace_for_prefix(&self, prefix: &NamespacePrefix) -> (r: Option<NamespaceUrl>)
        ensures
            self.spec_lookup(prefix.0@) matches Some(url) ==> (r matches Some(u) && u.0@ == url),
            self.spec_lookup(prefix.0@) is None ==> r is None,
    {
        let mut i: usize = 0;
        while i < self.entries.len()
            invariant
                0 <= i <= self.entries@.len(),
                lookup_from(self.entries@, prefix.0@, i as int) == self.spec_lookup(prefix.0@),
            decreases self.entries@.len() - i,
        {
            if self.entries[i].0.0 == prefix.0 {
                return Some(self.entries[i].1.clone());
            }
            i = i + 1;
        }
        None
    }

    /// Records one `@namespace` declaration: the default for no prefix;
    /// otherwise the prefix's binding is replaced in place where it exists
    /// and appended where it does not, so the last declaration of a prefix
    /// wins.
    #[verifier::loop_isolation(false)]
    pub fn update(&mut self, prefix: Option<&NamespacePrefix>, url: &NamespaceUrl)
        ensures
            prefix is None ==> final(self).default == Some(*url) && final(self).entries@ == old(self).entries@,
            prefix matches Some(p) ==> final(self).default == old(self).default && ({
                let k = find_prefix(old(self).entries@, p.0@, 0);
                &&& 0 <= k <= old(self).entries@.len()
                &&& k < old(self).entries@.len() ==> final(self).entries@ == old(self).entries@.update(k, ((*p), (*url)))
                &&& k == old(self).entries@.len() ==> final(self).entries@ == old(self).entries@.push(((*p), (*url)))
            }),
    {
        match prefix {
            Some(p) => {
                proof {
                    lemma_find_prefix(self.entries@, p.0@, 0);
                }
                let mut i: usize = 0;
                while i < self.entries.len()
                    invariant
                        0 <= i <= self.entries@.len(),
                        self.entries@ == old(self).entries@,
                        self.default == old(self).default,
                        find_prefix(self.entries@, p.0@, i as int) == find_prefix(
                            self.entries@,
                            p.0@,
                            0,
                        ),
                    decreases self.entries@.len() - i,
                {
                    if self.entries[i].0.0.eq(&p.0) {
                        self.entries[i] = (p.clone(), url.clone());
                        return ;
                    }
                    i = i + 1;
                }
                self.entries.push((p.clone(), url.clone()));
            },
            None => {
                self.default = Some(url.clone());
            },
        }
    }
}

/// Appending an entry leaves every earlier prefix's resolution unchanged and
/// gives a previously unknown prefix the appended URI.
pub proof fn lemma_lookup_push(
    entries: Seq<(NamespacePrefix, NamespaceUrl)>,
    e: (NamespacePrefix, NamespaceUrl),
    prefix: Seq<char>,
)
    ensures
        lookup_from(entries, prefix, 0) matches Some(u) ==> lookup_from(
            entries.push(e),
            prefix,
            0,
        ) == Some(u),
        lookup_from(entries, prefix, 0) is None && e.0.0@ == prefix ==> lookup_from(
            entries.push(e),
            prefix,
            0,
        ) == Some(e.1.0@),
        lookup_from(entries, prefix, 0) is None && e.0.0@ != prefix ==> lookup_from(
            entries.push(e),
            prefix,
            0,
        ) is None,
{
    lemma_lookup_push_from(entries, e, prefix, 0);
}

proof fn lemma_lookup_push_from(
    entries: Seq<(NamespacePrefix, NamespaceUrl)>,
    e: (NamespacePrefix, NamespaceUrl),
    prefix: Seq<char>,
    i: int,
)
    requires
        0 <= i <= entries.len(),
    ensures
        lookup_from(entries, prefix, i) matches Some(u) ==> lookup_from(
            entries.push(e),
            prefix,
            i,
        ) == Some(u),
        lookup_from(entries, prefix, i) is None && e.0.0@ == prefix ==> lookup_from(
            entries.push(e),
            prefix,
            i,
        ) == Some(e.1.0@),
        lookup_from(entries, prefix, i) is None && e.0.0@ != prefix ==> lookup_from(
            entries.push(e),
            prefix,
            i,
        ) is None,
    decreases entries.len() - i,
{
    if i < entries.len() {
        assert(entries.push(e)[i] == entries[i]);
        if entries[i].0.0@ == prefix {
        } else {
            lemma_lookup_push_from(entries, e, prefix, i + 1);
        }
    } else {
        assert(entries.push(e)[i] == e);
        assert(lookup_from(entries.push(e), prefix, i + 1) is None);
    }
}

} // verus!
