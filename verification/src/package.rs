//! The derivation model: the persisted record form, the in-memory form with
//! its parse defaults, and the loaded collection with dedup and lookup.

use vstd::prelude::*;
use crate::text::{contains_sub, is_sub, str_eq};
use crate::util::{norm_seq, normalize};

verus! {

/// A derivation record exactly as it sits in its file: every optional key
/// still optional, before parse defaults are applied.
#[derive(Debug)]
pub struct RawDerivation {
    pub url: String,
    pub extract: Option<bool>,
    pub extract_target: Option<String>,
    pub name: Option<String>,
    pub file_name: Option<String>,
    pub hash: Option<String>,
    pub depends: Option<Vec<String>>,
    pub tags: Option<Vec<String>>,
}

/// The mathematical content of a raw record.
#[verifier::ext_equal]
pub ghost struct RawDerivationModel {
    pub url: Seq<char>,
    pub extract: Option<bool>,
    pub extract_target: Option<Seq<char>>,
    pub name: Option<Seq<char>>,
    pub file_name: Option<Seq<char>>,
    pub hash: Option<Seq<char>>,
    pub depends: Option<Seq<Seq<char>>>,
    pub tags: Option<Seq<Seq<char>>>,
}

impl View for RawDerivation {
    type V = RawDerivationModel;

    open spec fn view(&self) -> RawDerivationModel {
        RawDerivationModel {
            url: self.url@,
            extract: self.extract,
            extract_target: self.extract_target.deep_view(),
            name: self.name.deep_view(),
            file_name: self.file_name.deep_view(),
            hash: self.hash.deep_view(),
            depends: self.depends.deep_view(),
            tags: self.tags.deep_view(),
        }
    }
}

/// One mod: where to fetch it, its stable identity, and how to verify and
/// unpack what was fetched.
#[derive(Clone, Debug)]
pub struct Derivation {
    pub url: String,
    pub name: String,
    pub file_name: String,
    pub extract: bool,
    pub extract_target: Option<String>,
    pub hash: Option<String>,
    pub depends: Vec<String>,
    pub tags: Vec<String>,
    pub backing_file: String,
}

/// The mathematical content of a derivation.
#[verifier::ext_equal]
pub ghost struct DerivationModel {
    pub url: Seq<char>,
    pub name: Seq<char>,
    pub file_name: Seq<char>,
    pub extract: bool,
    pub extract_target: Option<Seq<char>>,
    pub hash: Option<Seq<char>>,
    pub depends: Seq<Seq<char>>,
    pub tags: Seq<Seq<char>>,
    pub backing_file: Seq<char>,
}

impl View for Derivation {
    type V = DerivationModel;

    open spec fn view(&self) -> DerivationModel {
        DerivationModel {
            url: self.url@,
            name: self.name@,
            file_name: self.file_name@,
            extract: self.extract,
            extract_target: self.extract_target.deep_view(),
            hash: self.hash.deep_view(),
            depends: self.depends.deep_view(),
            tags: self.tags.deep_view(),
            backing_file: self.backing_file@,
        }
    }
}

/// The models of a sequence of derivations.
pub open spec fn models(s: Seq<Derivation>) -> Seq<DerivationModel> {
    s.map_values(|d: Derivation| d@)
}

/// The URL holds at least one `/`.
pub open spec fn has_slash(s: Seq<char>) -> bool {
    exists|i: int| 0 <= i < s.len() && s[i] == '/'
}

/// The characters after the last `/`.
pub open spec fn last_segment(s: Seq<char>) -> Seq<char>
    decreases s.len(),
{
    if s.len() == 0 {
        Seq::empty()
    } else if s.last() == '/' {
        Seq::empty()
    } else {
        last_segment(s.drop_last()).push(s.last())
    }
}

/// The in-memory form of a raw record: defaults applied, the record's
/// path retained for write-back.
pub open spec fn spec_from_raw(raw: RawDerivationModel, p: Seq<char>) -> DerivationModel {
    let file_name = match raw.file_name {
        Some(f) => f,
        None => last_segment(raw.url),
    };
    DerivationModel {
        url: raw.url,
        name: match raw.name {
            Some(n) => n,
            None => file_name,
        },
        file_name,
        extract: match raw.extract {
            Some(e) => e,
            None => false,
        },
        extract_target: raw.extract_target,
        hash: raw.hash,
        depends: match raw.depends {
            Some(d) => d,
            None => Seq::empty(),
        },
        tags: match raw.tags {
            Some(t) => t,
            None => Seq::empty(),
        },
        backing_file: p,
    }
}

/// The record form of a derivation, defaults elided: `extract = false` and
/// empty lists are left out, the backing path is never part of the record.
pub open spec fn spec_to_raw(d: DerivationModel) -> RawDerivationModel {
    RawDerivationModel {
        url: d.url,
        extract: if d.extract {
            Some(true)
        } else {
            None
        },
        extract_target: d.extract_target,
        name: Some(d.name),
        file_name: Some(d.file_name),
        hash: d.hash,
        depends: if d.depends.len() == 0 {
            None
        } else {
            Some(d.depends)
        },
        tags: if d.tags.len() == 0 {
            None
        } else {
            Some(d.tags)
        },
    }
}

/// Parsing the serialized record of a derivation gives that derivation
/// back: serialization loses nothing but the backing path, which the
/// caller re-supplies.
pub proof fn lemma_raw_round_trip(d: DerivationModel)
    ensures
        spec_from_raw(spec_to_raw(d), d.backing_file) == d,
{
    assert(spec_from_raw(spec_to_raw(d), d.backing_file) =~~= d);
}

impl Derivation {
    /// Plain constructor.
    #[allow(clippy::too_many_arguments)]
    pub fn new(
        url: &str,
        name: &str,
        file_name: &str,
        extract: bool,
        extract_target: Option<String>,
        hash: Option<String>,
        depends: Vec<String>,
        tags: Vec<String>,
        backing_file: &str,
    ) -> (r: Derivation)
        ensures
            r@ == (DerivationModel {
                url: url@,
                name: name@,
                file_name: file_name@,
                extract,
                extract_target: extract_target.deep_view(),
                hash: hash.deep_view(),
                depends: depends.deep_view(),
                tags: tags.deep_view(),
                backing_file: backing_file@,
            }),
    {
        Derivation {
            url: url.to_owned(),
            name: name.to_owned(),
            file_name: file_name.to_owned(),
            extract,
            extract_target,
            hash,
            depends,
            tags,
            backing_file: backing_file.to_owned(),
        }
    }

    /// Apply parse defaults to a raw record: a missing `extract` is false,
    /// missing lists are empty, a missing name falls back to the file name
    /// and then to the URL's last path segment.
    pub fn from_raw(raw: RawDerivation, p: &str) -> (r: Derivation)
        requires
            raw.file_name is None ==> has_slash(raw.url@),
        ensures
            r@ == spec_from_raw(raw@, p@),
    {
        let file_name: String = match raw.file_name {
            Some(f) => f,
            None => url_last_segment(&raw.url),
        };
        let name: String = match raw.name {
            Some(n) => n,
            None => file_name.clone(),
        };
        let r = Derivation {
            url: raw.url,
            name,
            file_name,
            extract: match raw.extract {
                Some(e) => e,
                None => false,
            },
            extract_target: raw.extract_target,
            hash: raw.hash,
            depends: match raw.depends {
                Some(d) => d,
                None => Vec::new(),
            },
            tags: match raw.tags {
                Some(t) => t,
                None => Vec::new(),
            },
            backing_file: p.to_owned(),
        };
        proof {
            assert(r@ =~~= spec_from_raw(raw@, p@));
        }
        r
    }

    /// The record form of this derivation, ready to be written back.
    pub fn to_raw(&self) -> (r: RawDerivation)
        ensures
            r@ == spec_to_raw(self@),
    {
        RawDerivation {
            url: self.url.clone(),
            extract: if self.extract {
                Some(true)
            } else {
                None
            },
            extract_target: clone_opt_string(&self.extract_target),
            name: Some(self.name.clone()),
            file_name: Some(self.file_name.clone()),
            hash: clone_opt_string(&self.hash),
            depends: if self.depends.len() == 0 {
                None
            } else {
                Some(clone_string_vec(&self.depends))
            },
            tags: if self.tags.len() == 0 {
                None
            } else {
                Some(clone_string_vec(&self.tags))
            },
        }
    }

    /// A field-faithful copy.
    pub fn duplicate(&self) -> (r: Derivation)
        ensures
            r@ == self@,
    {
        Derivation {
            url: self.url.clone(),
            name: self.name.clone(),
            file_name: self.file_name.clone(),
            extract: self.extract,
            extract_target: clone_opt_string(&self.extract_target),
            hash: clone_opt_string(&self.hash),
            depends: clone_string_vec(&self.depends),
            tags: clone_string_vec(&self.tags),
            backing_file: self.backing_file.clone(),
        }
    }

    /// The basename of this derivation's store entry: `{hash}-{name}`.
    pub fn generate_hash_signature(&self) -> (r: String)
        requires
            self@.hash is Some,
        ensures
            r@ == sig_of(self@),
    {
        let mut s: String = match &self.hash {
            Some(h) => h.clone(),
            None => String::new(),
        };
        s.append("-");
        s.append(self.name.as_str());
        s
    }

    /// Canonicalize the name in place.
    pub fn normalize_name(&mut self)
        ensures
            final(self)@ == (DerivationModel { name: norm_seq(old(self)@.name), ..old(self)@ }),
    {
        self.name = normalize(self.name.as_str());
    }
}

/// The store-entry basename of a derivation whose hash is set.
pub open spec fn sig_of(d: DerivationModel) -> Seq<char> {
    (match d.hash {
        Some(h) => h,
        None => Seq::empty(),
    }) + "-"@ + d.name
}

/// Hash signatures are deterministic: two derivations over the same bytes
/// and the same name address the same store entry.
pub proof fn lemma_signature_deterministic(a: DerivationModel, b: DerivationModel, bytes: Seq<u8>)
    requires
        a.hash == Some(crate::util::nix_hash_of(bytes)),
        b.hash == Some(crate::util::nix_hash_of(bytes)),
        a.name == b.name,
    ensures
        sig_of(a) == sig_of(b),
{
}

/// Copy an optional string.
pub fn clone_opt_string(o: &Option<String>) -> (r: Option<String>)
    ensures
        r.deep_view() == o.deep_view(),
{
    match o {
        Some(s) => Some(s.clone()),
        None => None,
    }
}

/// Copy a vector of strings.
pub fn clone_string_vec(v: &Vec<String>) -> (r: Vec<String>)
    ensures
        r.deep_view() == v.deep_view(),
{
    let mut out: Vec<String> = Vec::new();
    let len = v.len();
    let mut i: usize = 0;
    while i < len
        invariant
            len == v@.len(),
            i <= len,
            out@.len() == i,
            forall|j: int| 0 <= j < i ==> #[trigger] out@[j]@ == v@[j]@,
        decreases len - i,
    {
        out.push(v[i].clone());
        i = i + 1;
    }
    proof {
        assert(out.deep_view() =~= v.deep_view());
    }
    out
}

/// The characters of the URL after its last slash.
fn url_last_segment(url: &String) -> (r: String)
    requires
        has_slash(url@),
    ensures
        r@ == last_segment(url@),
{
    let chars = crate::text::chars_vec(url.as_str());
    let len = chars.len();
    let mut last: usize = 0;
    let mut i: usize = 0;
    let mut seen = false;
    while i < len
        invariant
            chars@ == url@,
            len == url@.len(),
            i <= len,
            seen ==> last < i && url@[last as int] == '/' && forall|j: int|
                last < j < i ==> url@[j] != '/',
            !seen ==> forall|j: int| 0 <= j < i ==> url@[j] != '/',
        decreases len - i,
    {
        if chars[i] == '/' {
            last = i;
            seen = true;
        }
        i = i + 1;
    }
    proof {
        assert(seen) by {
            if !seen {
                assert(forall|j: int| 0 <= j < url@.len() ==> url@[j] != '/');
            }
        }
        lemma_last_segment_after(url@, last as int);
    }
    let tail = url.as_str().substring_char(last + 1, len);
    tail.to_owned()
}

/// Equality of derivations on their persisted fields: everything but the
/// backing path.
pub open spec fn pers_eq(a: DerivationModel, b: DerivationModel) -> bool {
    &&& a.url == b.url
    &&& a.name == b.name
    &&& a.file_name == b.file_name
    &&& a.extract == b.extract
    &&& a.extract_target == b.extract_target
    &&& a.hash == b.hash
    &&& a.depends == b.depends
    &&& a.tags == b.tags
}

/// Some element of `s` equals `d` on the persisted fields.
pub open spec fn contains_pers(s: Seq<DerivationModel>, d: DerivationModel) -> bool {
    exists|i: int| 0 <= i < s.len() && pers_eq(#[trigger] s[i], d)
}

/// Deduplication keeping the first occurrence of each persisted value.
pub open spec fn spec_dedup(s: Seq<DerivationModel>) -> Seq<DerivationModel>
    decreases s.len(),
{
    if s.len() == 0 {
        Seq::empty()
    } else if contains_pers(s.drop_last(), s.last()) {
        spec_dedup(s.drop_last())
    } else {
        spec_dedup(s.drop_last()).push(s.last())
    }
}

/// Deduplication neither invents nor loses persisted values.
pub proof fn lemma_dedup_contains(s: Seq<DerivationModel>, d: DerivationModel)
    ensures
        contains_pers(spec_dedup(s), d) <==> contains_pers(s, d),
    decreases s.len(),
{
    if s.len() > 0 {
        lemma_dedup_contains(s.drop_last(), d);
        if contains_pers(s.drop_last(), s.last()) {
            if contains_pers(s, d) && !contains_pers(s.drop_last(), d) {
                let i = choose|i: int| 0 <= i < s.len() && pers_eq(#[trigger] s[i], d);
                if i < s.len() - 1 {
                    assert(pers_eq(s.drop_last()[i], d));
                }
                assert(i == s.len() - 1);
                let j = choose|j: int|
                    0 <= j < s.drop_last().len() && pers_eq(#[trigger] s.drop_last()[j], s.last());
                assert(pers_eq(s.drop_last()[j], d));
            }
        } else {
            let prev = spec_dedup(s.drop_last());
            assert(spec_dedup(s) == prev.push(s.last()));
            if contains_pers(s, d) {
                let i = choose|i: int| 0 <= i < s.len() && pers_eq(#[trigger] s[i], d);
                if i < s.len() - 1 {
                    assert(pers_eq(s.drop_last()[i], d));
                    let j = choose|j: int| 0 <= j < prev.len() && pers_eq(#[trigger] prev[j], d);
                    assert(pers_eq(prev.push(s.last())[j], d));
                } else {
                    assert(pers_eq(prev.push(s.last()).last(), d));
                }
            }
            if contains_pers(spec_dedup(s), d) {
                let i = choose|i: int|
                    0 <= i < spec_dedup(s).len() && pers_eq(#[trigger] spec_dedup(s)[i], d);
                if i < prev.len() {
                    assert(pers_eq(prev[i], d));
                    let j = choose|j: int|
                        0 <= j < s.drop_last().len() && pers_eq(#[trigger] s.drop_last()[j], d);
                    assert(pers_eq(s[j], d));
                } else {
                    assert(pers_eq(s.last(), d));
                    assert(pers_eq(s[s.len() - 1], d));
                }
            }
        }
    }
}

/// Deduplicating a list concatenated with itself keeps exactly the
/// persisted values of deduplicating the list alone.
pub proof fn lemma_dedup_stable(s: Seq<DerivationModel>)
    ensures
        forall|d: DerivationModel|
            contains_pers(#[trigger] spec_dedup(s + s), d) <==> contains_pers(spec_dedup(s), d),
{
    assert forall|d: DerivationModel|
        contains_pers(#[trigger] spec_dedup(s + s), d) <==> contains_pers(spec_dedup(s), d) by {
        lemma_dedup_contains(s + s, d);
        lemma_dedup_contains(s, d);
        if contains_pers(s + s, d) {
            let i = choose|i: int| 0 <= i < (s + s).len() && pers_eq(#[trigger] (s + s)[i], d);
            if i < s.len() {
                assert(pers_eq(s[i], d));
            } else {
                assert(pers_eq(s[i - s.len()], d));
            }
        }
        if contains_pers(s, d) {
            let i = choose|i: int| 0 <= i < s.len() && pers_eq(#[trigger] s[i], d);
            assert(pers_eq((s + s)[i], d));
        }
    }
}

/// Compare two optional strings.
pub fn opt_str_eq(a: &Option<String>, b: &Option<String>) -> (r: bool)
    ensures
        r == (a.deep_view() == b.deep_view()),
{
    match a {
        None => match b {
            None => true,
            Some(_) => false,
        },
        Some(x) => match b {
            None => false,
            Some(y) => *x == *y,
        },
    }
}

/// Compare two vectors of strings.
pub fn str_vec_eq(a: &Vec<String>, b: &Vec<String>) -> (r: bool)
    ensures
        r == (a.deep_view() == b.deep_view()),
{
    let alen = a.len();
    if alen != b.len() {
        proof {
            assert(a.deep_view().len() == a@.len());
            assert(b.deep_view().len() == b@.len());
        }
        return false;
    }
    let mut i: usize = 0;
    while i < alen
        invariant
            alen == a@.len(),
            alen == b@.len(),
            i <= alen,
            forall|j: int| 0 <= j < i ==> #[trigger] a@[j]@ == b@[j]@,
        decreases alen - i,
    {
        if !(a[i] == b[i]) {
            proof {
                assert(a.deep_view()[i as int] == a@[i as int]@);
                assert(b.deep_view()[i as int] == b@[i as int]@);
            }
            return false;
        }
        i = i + 1;
    }
    proof {
        assert(a.deep_view() =~= b.deep_view());
    }
    true
}

/// Compare two derivations on their persisted fields.
pub fn derivation_pers_eq(a: &Derivation, b: &Derivation) -> (r: bool)
    ensures
        r == pers_eq(a@, b@),
{
    let r = a.url == b.url && a.name == b.name && a.file_name == b.file_name && a.extract
        == b.extract && opt_str_eq(&a.extract_target, &b.extract_target) && opt_str_eq(
        &a.hash,
        &b.hash,
    ) && str_vec_eq(&a.depends, &b.depends) && str_vec_eq(&a.tags, &b.tags);
    r
}

/// Some element of `v` equals `d` on the persisted fields.
pub fn contains_pers_exec(v: &Vec<Derivation>, d: &Derivation) -> (r: bool)
    ensures
        r == contains_pers(models(v@), d@),
{
    let len = v.len();
    let mut i: usize = 0;
    while i < len
        invariant
            len == v@.len(),
            i <= len,
            forall|j: int| 0 <= j < i ==> !pers_eq(#[trigger] models(v@)[j], d@),
        decreases len - i,
    {
        if derivation_pers_eq(&v[i], d) {
            proof {
                assert(pers_eq(models(v@)[i as int], d@));
            }
            return true;
        }
        i = i + 1;
    }
    false
}

/// Collapse persisted duplicates, keeping first occurrences in order.
pub(crate) fn dedup_ref(derivations: &Vec<Derivation>) -> (r: Vec<Derivation>)
    ensures
        models(r@) == spec_dedup(models(derivations@)),
{
    let len = derivations.len();
    let mut out: Vec<Derivation> = Vec::new();
    let mut i: usize = 0;
    while i < len
        invariant
            len == derivations@.len(),
            i <= len,
            models(out@) =~= spec_dedup(models(derivations@).take(i as int)),
        decreases len - i,
    {
        let ghost pre = models(derivations@).take(i as int);
        let ghost post = models(derivations@).take(i + 1);
        proof {
            assert(post.drop_last() =~= pre);
            assert(post.last() == derivations@[i as int]@);
            lemma_dedup_contains(pre, derivations@[i as int]@);
        }
        if !contains_pers_exec(&out, &derivations[i]) {
            out.push(derivations[i].duplicate());
            proof {
                assert(models(out@) =~= models(out@.drop_last()).push(out@.last()@));
            }
        }
        i = i + 1;
    }
    proof {
        assert(models(derivations@).take(len as int) =~= models(derivations@));
    }
    out
}

/// Some derivation's normalized name equals the normalized dependency
/// name.
pub open spec fn name_resolved(ms: Seq<DerivationModel>, dep: Seq<char>) -> bool {
    exists|k: int| 0 <= k < ms.len() && norm_seq(#[trigger] ms[k].name) == norm_seq(dep)
}

/// The dependency names that nothing in the set resolves, in order.
pub open spec fn spec_unresolved(ms: Seq<DerivationModel>, depends: Seq<Seq<char>>) -> Seq<
    Seq<char>,
>
    decreases depends.len(),
{
    if depends.len() == 0 {
        Seq::empty()
    } else if name_resolved(ms, depends.last()) {
        spec_unresolved(ms, depends.drop_last())
    } else {
        spec_unresolved(ms, depends.drop_last()).push(depends.last())
    }
}

/// A query matches a derivation when the normalized query occurs inside
/// the normalized name.
pub open spec fn fuzzy_matches(m: DerivationModel, q: Seq<char>) -> bool {
    is_sub(norm_seq(m.name), norm_seq(q))
}

/// The in-memory collection of every derivation loaded from a pack.
#[derive(Debug)]
pub struct Derivations {
    pub derivations: Vec<Derivation>,
}

impl Derivations {
    /// Wrap an already-loaded list.
    pub fn new(derivations: Vec<Derivation>) -> (r: Self)
        ensures
            r.derivations@ == derivations@,
    {
        Self { derivations }
    }

    /// Collapse persisted duplicates in place, keeping first occurrences.
    pub fn dedup(&mut self)
        ensures
            models(final(self).derivations@) == spec_dedup(models(old(self).derivations@)),
    {
        self.derivations = dedup_ref(&self.derivations);
    }

    /// Find the first derivation whose normalized name contains the
    /// normalized query.
    pub fn get_derivation_by_fuzzy_name<'a>(&'a self, name: &str) -> (r: Result<
        &'a Derivation,
        String,
    >)
        ensures
            (r matches Ok(d) ==> exists|i: int|
                {
                    &&& 0 <= i < models(self.derivations@).len()
                    &&& fuzzy_matches(#[trigger] models(self.derivations@)[i], name@)
                    &&& d@ == models(self.derivations@)[i]
                    &&& forall|j: int|
                        0 <= j < i ==> !fuzzy_matches(#[trigger] models(self.derivations@)[j], name@)
                }),
            (r matches Err(e) ==> e@ == name@ + " could not be found"@ && forall|i: int|
                0 <= i < models(self.derivations@).len() ==> !fuzzy_matches(
                    #[trigger] models(self.derivations@)[i],
                    name@,
                )),
    {
        let normalized_name = normalize(name);
        let len = self.derivations.len();
        let mut i: usize = 0;
        while i < len
            invariant
                len == self.derivations@.len(),
                i <= len,
                normalized_name@ == norm_seq(name@),
                forall|j: int|
                    0 <= j < i ==> !fuzzy_matches(#[trigger] models(self.derivations@)[j], name@),
            decreases len - i,
        {
            let nd = normalize(self.derivations[i].name.as_str());
            proof {
                assert(models(self.derivations@)[i as int] == self.derivations@[i as int]@);
            }
            if contains_sub(nd.as_str(), normalized_name.as_str()) {
                proof {
                    assert(fuzzy_matches(models(self.derivations@)[i as int], name@));
                }
                return Ok(&self.derivations[i]);
            }
            i = i + 1;
        }
        let mut e = name.to_owned();
        e.append(" could not be found");
        Err(e)
    }

    /// Find the first derivation whose normalized name equals the
    /// candidate's: a record that an installation would overwrite. The
    /// flag reports whether the match already carries full driver
    /// metadata; derivation records persist none, so it is never set.
    pub fn find_unmanaged_matches(&self, candidate: &Derivation) -> (r: Option<(usize, bool)>)
        ensures
            (r matches Some((i, installed)) ==> {
                &&& i < self.derivations@.len()
                &&& norm_seq(models(self.derivations@)[i as int].name) == norm_seq(
                    candidate@.name,
                )
                &&& !installed
                &&& forall|j: int|
                    0 <= j < i ==> norm_seq(#[trigger] models(self.derivations@)[j].name)
                        != norm_seq(candidate@.name)
            }),
            (r is None ==> forall|j: int|
                0 <= j < self.derivations@.len() ==> norm_seq(
                    #[trigger] models(self.derivations@)[j].name,
                ) != norm_seq(candidate@.name)),
    {
        let cn = normalize(candidate.name.as_str());
        let len = self.derivations.len();
        let mut i: usize = 0;
        while i < len
            invariant
                len == self.derivations@.len(),
                i <= len,
                cn@ == norm_seq(candidate@.name),
                forall|j: int|
                    0 <= j < i ==> norm_seq(#[trigger] models(self.derivations@)[j].name)
                        != norm_seq(candidate@.name),
            decreases len - i,
        {
            let dn = normalize(self.derivations[i].name.as_str());
            proof {
                assert(models(self.derivations@)[i as int] == self.derivations@[i as int]@);
            }
            if str_eq(dn.as_str(), cn.as_str()) {
                return Some((i, false));
            }
            i = i + 1;
        }
        None
    }

    /// The names in a derivation's `depends` list that no loaded
    /// derivation resolves: unresolved names are a warning when
    /// composing and fatal when installing.
    pub fn unresolved_depends(&self, d: &Derivation) -> (r: Vec<String>)
        ensures
            r.deep_view() == spec_unresolved(models(self.derivations@), d@.depends),
    {
        let len = d.depends.len();
        let mut out: Vec<String> = Vec::new();
        let mut i: usize = 0;
        while i < len
            invariant
                len == d.depends@.len(),
                i <= len,
                out.deep_view() =~= spec_unresolved(
                    models(self.derivations@),
                    d@.depends.take(i as int),
                ),
            decreases len - i,
        {
            let ghost pre = d@.depends.take(i as int);
            let ghost post = d@.depends.take(i + 1);
            proof {
                assert(post.drop_last() =~= pre);
                assert(post.last() == d@.depends[i as int]);
            }
            if !self.name_resolves(&d.depends[i]) {
                let ghost before = out.deep_view();
                out.push(d.depends[i].clone());
                proof {
                    assert(out.deep_view() =~= before.push(d@.depends[i as int]));
                }
            }
            i = i + 1;
        }
        proof {
            assert(d@.depends.take(len as int) =~= d@.depends);
        }
        out
    }

    /// Whether some loaded derivation's normalized name equals the
    /// normalized dependency name.
    fn name_resolves(&self, dep: &String) -> (r: bool)
        ensures
            r == name_resolved(models(self.derivations@), dep@),
    {
        let nd = normalize(dep.as_str());
        let len = self.derivations.len();
        let mut i: usize = 0;
        while i < len
            invariant
                len == self.derivations@.len(),
                i <= len,
                nd@ == norm_seq(dep@),
                forall|k: int|
                    0 <= k < i ==> norm_seq(#[trigger] models(self.derivations@)[k].name)
                        != norm_seq(dep@),
            decreases len - i,
        {
            let nn = normalize(self.derivations[i].name.as_str());
            proof {
                assert(models(self.derivations@)[i as int] == self.derivations@[i as int]@);
            }
            if str_eq(nn.as_str(), nd.as_str()) {
                proof {
                    assert(norm_seq(models(self.derivations@)[i as int].name) == norm_seq(dep@));
                }
                return true;
            }
            i = i + 1;
        }
        false
    }

    /// The driver package and version ids tracked by the loaded records.
    /// Derivation records persist no driver metadata, so there is nothing
    /// to hand the driver for short-circuiting.
    pub fn get_api_pkg_id_list(&self) -> (r: Vec<(String, Option<String>)>)
        ensures
            r@.len() == 0,
    {
        Vec::new()
    }
}

/// After the last slash, `last_segment` is exactly the remaining suffix.
proof fn lemma_last_segment_after(s: Seq<char>, i: int)
    requires
        0 <= i < s.len(),
        s[i] == '/',
        forall|j: int| i < j < s.len() ==> s[j] != '/',
    ensures
        last_segment(s) =~= s.subrange(i + 1, s.len() as int),
    decreases s.len(),
{
    if i == s.len() - 1 {
    } else {
        lemma_last_segment_after(s.drop_last(), i);
        assert(s.drop_last().subrange(i + 1, s.len() - 1) =~= s.subrange(i + 1, s.len() - 1));
        assert(last_segment(s) =~= last_segment(s.drop_last()).push(s.last()));
        assert(s.subrange(i + 1, s.len() as int) =~= s.subrange(i + 1, s.len() - 1).push(s.last()));
    }
}

} // verus!
