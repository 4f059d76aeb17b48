//! The components of a package URL that its type's rules look at.

use vstd::prelude::*;

use crate::bytes::str_eq;

verus! {

/// A package URL, split into its components.
pub struct PackageUrl {
    /// The package type, such as `npm` or `cargo`.
    pub ty: String,
    /// The namespace, such as a Maven group or a GitHub user.
    pub namespace: Option<String>,
    /// The package name.
    pub name: String,
    /// The package version.
    pub version: Option<String>,
    /// The qualifiers, as key and value pairs.
    pub qualifiers: Vec<(String, String)>,
    /// The subpath inside the package.
    pub subpath: Option<String>,
}

/// A [`PackageUrl`] with its strings taken as character sequences.
pub struct PurlModel {
    pub ty: Seq<char>,
    pub namespace: Option<Seq<char>>,
    pub name: Seq<char>,
    pub version: Option<Seq<char>>,
    pub qualifiers: Seq<(Seq<char>, Seq<char>)>,
    pub subpath: Option<Seq<char>>,
}

/// The characters of an optional string.
pub open spec fn opt_view(s: Option<String>) -> Option<Seq<char>> {
    match s {
        Some(s) => Some(s@),
        None => None,
    }
}

impl View for PackageUrl {
    type V = PurlModel;

    open spec fn view(&self) -> PurlModel {
        PurlModel {
            ty: self.ty@,
            namespace: opt_view(self.namespace),
            name: self.name@,
            version: opt_view(self.version),
            qualifiers: self.qualifiers@.map_values(|q: (String, String)| (q.0@, q.1@)),
            subpath: opt_view(self.subpath),
        }
    }
}

/// Position of the first qualifier whose key is `key`.
pub open spec fn qualifier_index(qs: Seq<(Seq<char>, Seq<char>)>, key: Seq<char>) -> Option<int>
    decreases qs.len(),
{
    if qs.len() == 0 {
        None
    } else if qs[0].0 == key {
        Some(0)
    } else {
        match qualifier_index(qs.drop_first(), key) {
            Some(i) => Some(i + 1),
            None => None,
        }
    }
}

/// Whether some qualifier has the key `key`.
pub open spec fn has_qualifier(qs: Seq<(Seq<char>, Seq<char>)>, key: Seq<char>) -> bool {
    exists|i: int| 0 <= i < qs.len() && (#[trigger] qs[i]).0 == key
}

/// The value of the qualifier with key `key` (the first one, should the key repeat).
pub open spec fn qualifier_value(qs: Seq<(Seq<char>, Seq<char>)>, key: Seq<char>) -> Option<
    Seq<char>,
> {
    match qualifier_index(qs, key) {
        Some(i) => Some(qs[i].1),
        None => None,
    }
}

/// `qualifier_index` picks the earliest qualifier with the key, and is `None` only when
/// no qualifier has it.
pub proof fn lemma_qualifier_index(qs: Seq<(Seq<char>, Seq<char>)>, key: Seq<char>)
    ensures
        match qualifier_index(qs, key) {
            Some(i) => 0 <= i < qs.len() && qs[i].0 == key && forall|j: int|
                0 <= j < i ==> qs[j].0 != key,
            None => forall|j: int| 0 <= j < qs.len() ==> qs[j].0 != key,
        },
        qualifier_index(qs, key) is Some <==> has_qualifier(qs, key),
    decreases qs.len(),
{
    if qs.len() > 0 && qs[0].0 != key {
        lemma_qualifier_index(qs.drop_first(), key);
        assert forall|j: int| 0 < j < qs.len() implies qs[j] == qs.drop_first()[j - 1] by {}
    }
    if qualifier_index(qs, key) is None {
        assert forall|j: int| 0 <= j < qs.len() implies qs[j].0 != key by {}
    }
}

impl PackageUrl {
    /// Position of the first qualifier whose key is `key`.
    pub fn find_qualifier(&self, key: &str) -> (r: Option<usize>)
        ensures
            match r {
                Some(i) => qualifier_index(self@.qualifiers, key@) == Some(i as int),
                None => qualifier_index(self@.qualifiers, key@) is None,
            },
    {
        let ghost qs = self@.qualifiers;
        proof {
            lemma_qualifier_index(qs, key@);
        }
        let mut i: usize = 0;
        while i < self.qualifiers.len()
            invariant
                qs == self@.qualifiers,
                qs.len() == self.qualifiers@.len(),
                i <= qs.len(),
                forall|j: int| 0 <= j < i ==> qs[j].0 != key@,
            decreases self.qualifiers.len() - i,
        {
            if str_eq(self.qualifiers[i].0.as_str(), key) {
                assert(qs[i as int].0 == key@);
                proof {
                    lemma_qualifier_index(qs, key@);
                    let k = qualifier_index(qs, key@).unwrap();
                    if k < i {
                        assert(qs[k].0 != key@);
                    } else if k > i {
                        assert(qs[i as int].0 != key@);
                    }
                }
                return Some(i);
            }
            i = i + 1;
        }
        None
    }

    /// Whether some qualifier has the key `key`.
    pub fn has_qualifier(&self, key: &str) -> (b: bool)
        ensures
            b == has_qualifier(self@.qualifiers, key@),
    {
        proof {
            lemma_qualifier_index(self@.qualifiers, key@);
        }
        self.find_qualifier(key).is_some()
    }

    /// The value of the qualifier with key `key`.
    pub fn qualifier(&self, key: &str) -> (r: Option<&str>)
        ensures
            match r {
                Some(v) => qualifier_value(self@.qualifiers, key@) == Some(v@),
                None => qualifier_value(self@.qualifiers, key@) is None,
            },
    {
        proof {
            lemma_qualifier_index(self@.qualifiers, key@);
        }
        match self.find_qualifier(key) {
            Some(i) => {
                assert(self@.qualifiers[i as int].1 == self.qualifiers@[i as int].1@);
                Some(self.qualifiers[i].1.as_str())
            },
            None => None,
        }
    }
}

} // verus!
