//! Per-type rules of package URLs: which types need, or forbid, a namespace, which
//! components are lowercased, which qualifiers are required, and the name and version
//! forms that some types demand.

use vstd::prelude::*;

use crate::bytes::{
    contains_bytes, contains_subslice, find_from, first_index_of, lemma_first_index_of, str_eq,
    utf8_of,
};
use crate::error::{outcome, Error, ErrorModel};
use crate::purl::{has_qualifier, qualifier_value, PackageUrl, PurlModel};
use crate::utils::{any_uppercase, has_uppercase, spec_str_to_lowercase, str_to_lowercase};

verus! {

broadcast use vstd::utf8::group_utf8_lib;

/// Whether a type allows, needs or forbids a namespace.
#[derive(Clone, Copy, Debug, PartialEq, Eq, Structural)]
pub enum Namespace {
    Optional,
    Required,
    Prohibited,
}

/// The rules of one package type.
pub struct TypeRules {
    /// The type the rules are for.
    pub ty: &'static str,
    /// Whether the type allows, needs or forbids a namespace.
    pub namespace: Namespace,
    /// Whether the name is case insensitive and lowercased.
    pub lowercase_name: bool,
    /// Whether the namespace is case insensitive and lowercased.
    pub lowercase_namespace: bool,
    /// Whether the version is case insensitive and lowercased.
    pub lowercase_version: bool,
    /// The qualifiers every purl of the type must carry.
    pub required_qualifiers: Vec<&'static str>,
}

/// [`TypeRules`] with its strings taken as character sequences.
pub struct RulesModel {
    pub ty: Seq<char>,
    pub namespace: Namespace,
    pub lowercase_name: bool,
    pub lowercase_namespace: bool,
    pub lowercase_version: bool,
    pub required_qualifiers: Seq<Seq<char>>,
}

impl View for TypeRules {
    type V = RulesModel;

    open spec fn view(&self) -> RulesModel {
        RulesModel {
            ty: self.ty@,
            namespace: self.namespace,
            lowercase_name: self.lowercase_name,
            lowercase_namespace: self.lowercase_namespace,
            lowercase_version: self.lowercase_version,
            required_qualifiers: self.required_qualifiers@.map_values(|q: &str| q@),
        }
    }
}

/// The rules of a type that requires no qualifier.
pub open spec fn rule(
    ty: Seq<char>,
    namespace: Namespace,
    lowercase_name: bool,
    lowercase_namespace: bool,
    lowercase_version: bool,
) -> RulesModel {
    RulesModel {
        ty,
        namespace,
        lowercase_name,
        lowercase_namespace,
        lowercase_version,
        required_qualifiers: Seq::empty(),
    }
}

/// The rules of each known type; unknown types have none.
pub open spec fn type_rules(ty: Seq<char>) -> Option<RulesModel> {
    if ty == "apk"@ {
        Some(rule("apk"@, Namespace::Optional, false, true, false))
    } else if ty == "bitbucket"@ {
        Some(rule("bitbucket"@, Namespace::Optional, true, true, false))
    } else if ty == "bitnami"@ {
        Some(rule("bitnami"@, Namespace::Prohibited, false, false, false))
    } else if ty == "cargo"@ {
        Some(rule("cargo"@, Namespace::Prohibited, false, false, false))
    } else if ty == "chrome-extension"@ {
        Some(rule("chrome-extension"@, Namespace::Prohibited, false, false, false))
    } else if ty == "cocoapods"@ {
        Some(rule("cocoapods"@, Namespace::Prohibited, false, false, false))
    } else if ty == "composer"@ {
        Some(rule("composer"@, Namespace::Required, true, true, false))
    } else if ty == "conda"@ {
        Some(rule("conda"@, Namespace::Prohibited, false, false, false))
    } else if ty == "cpan"@ {
        Some(rule("cpan"@, Namespace::Required, false, false, false))
    } else if ty == "cran"@ {
        Some(rule("cran"@, Namespace::Prohibited, false, false, false))
    } else if ty == "deb"@ {
        Some(rule("deb"@, Namespace::Optional, true, true, false))
    } else if ty == "gem"@ {
        Some(rule("gem"@, Namespace::Prohibited, false, false, false))
    } else if ty == "github"@ {
        Some(rule("github"@, Namespace::Optional, true, true, false))
    } else if ty == "golang"@ {
        Some(rule("golang"@, Namespace::Optional, false, true, false))
    } else if ty == "hackage"@ {
        Some(rule("hackage"@, Namespace::Prohibited, false, false, false))
    } else if ty == "hex"@ {
        Some(rule("hex"@, Namespace::Optional, true, true, false))
    } else if ty == "huggingface"@ {
        Some(rule("huggingface"@, Namespace::Required, false, false, true))
    } else if ty == "julia"@ {
        Some(RulesModel { required_qualifiers: seq!["uuid"@], ..rule("julia"@, Namespace::Prohibited, false, false, false) })
    } else if ty == "mlflow"@ {
        Some(rule("mlflow"@, Namespace::Prohibited, false, false, false))
    } else if ty == "npm"@ {
        Some(rule("npm"@, Namespace::Optional, true, false, false))
    } else if ty == "nuget"@ {
        Some(rule("nuget"@, Namespace::Prohibited, false, false, false))
    } else if ty == "oci"@ {
        Some(rule("oci"@, Namespace::Prohibited, false, false, false))
    } else if ty == "otp"@ {
        Some(rule("otp"@, Namespace::Prohibited, false, false, false))
    } else if ty == "pub"@ {
        Some(rule("pub"@, Namespace::Prohibited, false, false, false))
    } else if ty == "pypi"@ {
        Some(rule("pypi"@, Namespace::Prohibited, true, false, false))
    } else if ty == "qpkg"@ {
        Some(rule("qpkg"@, Namespace::Optional, false, true, false))
    } else if ty == "rpm"@ {
        Some(rule("rpm"@, Namespace::Optional, false, true, false))
    } else if ty == "swift"@ {
        Some(rule("swift"@, Namespace::Required, false, false, false))
    } else if ty == "vcpkg"@ {
        Some(rule("vcpkg"@, Namespace::Prohibited, false, false, false))
    } else if ty == "vscode-extension"@ {
        Some(rule("vscode-extension"@, Namespace::Required, false, false, false))
    } else {
        None
    }
}

/// The optional rules taken by their view.
pub open spec fn rules_view(r: Option<TypeRules>) -> Option<RulesModel> {
    match r {
        Some(r) => Some(r@),
        None => None,
    }
}

fn entry(
    ty: &'static str,
    namespace: Namespace,
    lowercase_name: bool,
    lowercase_namespace: bool,
    lowercase_version: bool,
) -> (r: TypeRules)
    ensures
        r@ == rule(ty@, namespace, lowercase_name, lowercase_namespace, lowercase_version),
{
    let r = TypeRules {
        ty,
        namespace,
        lowercase_name,
        lowercase_namespace,
        lowercase_version,
        required_qualifiers: Vec::new(),
    };
    assert(r@.required_qualifiers =~= Seq::<Seq<char>>::empty());
    r
}

/// The rules of the type `ty`, if it is a known type.
pub fn rules(ty: &str) -> (r: Option<TypeRules>)
    ensures
        rules_view(r) == type_rules(ty@),
{
    if str_eq(ty, "apk") {
        return Some(entry("apk", Namespace::Optional, false, true, false));
    }
    if str_eq(ty, "bitbucket") {
        return Some(entry("bitbucket", Namespace::Optional, true, true, false));
    }
    if str_eq(ty, "bitnami") {
        return Some(entry("bitnami", Namespace::Prohibited, false, false, false));
    }
    if str_eq(ty, "cargo") {
        return Some(entry("cargo", Namespace::Prohibited, false, false, false));
    }
    if str_eq(ty, "chrome-extension") {
        return Some(entry("chrome-extension", Namespace::Prohibited, false, false, false));
    }
    if str_eq(ty, "cocoapods") {
        return Some(entry("cocoapods", Namespace::Prohibited, false, false, false));
    }
    if str_eq(ty, "composer") {
        return Some(entry("composer", Namespace::Required, true, true, false));
    }
    if str_eq(ty, "conda") {
        return Some(entry("conda", Namespace::Prohibited, false, false, false));
    }
    if str_eq(ty, "cpan") {
        return Some(entry("cpan", Namespace::Required, false, false, false));
    }
    if str_eq(ty, "cran") {
        return Some(entry("cran", Namespace::Prohibited, false, false, false));
    }
    if str_eq(ty, "deb") {
        return Some(entry("deb", Namespace::Optional, true, true, false));
    }
    if str_eq(ty, "gem") {
        return Some(entry("gem", Namespace::Prohibited, false, false, false));
    }
    if str_eq(ty, "github") {
        return Some(entry("github", Namespace::Optional, true, true, false));
    }
    if str_eq(ty, "golang") {
        return Some(entry("golang", Namespace::Optional, false, true, false));
    }
    if str_eq(ty, "hackage") {
        return Some(entry("hackage", Namespace::Prohibited, false, false, false));
    }
    if str_eq(ty, "hex") {
        return Some(entry("hex", Namespace::Optional, true, true, false));
    }
    if str_eq(ty, "huggingface") {
        return Some(entry("huggingface", Namespace::Required, false, false, true));
    }
    if str_eq(ty, "julia") {
        let mut r = entry("julia", Namespace::Prohibited, false, false, false);
        r.required_qualifiers = vec!["uuid"];
        assert(r@.required_qualifiers =~= seq!["uuid"@]);
        return Some(r);
    }
    if str_eq(ty, "mlflow") {
        return Some(entry("mlflow", Namespace::Prohibited, false, false, false));
    }
    if str_eq(ty, "npm") {
        return Some(entry("npm", Namespace::Optional, true, false, false));
    }
    if str_eq(ty, "nuget") {
        return Some(entry("nuget", Namespace::Prohibited, false, false, false));
    }
    if str_eq(ty, "oci") {
        return Some(entry("oci", Namespace::Prohibited, false, false, false));
    }
    if str_eq(ty, "otp") {
        return Some(entry("otp", Namespace::Prohibited, false, false, false));
    }
    if str_eq(ty, "pub") {
        return Some(entry("pub", Namespace::Prohibited, false, false, false));
    }
    if str_eq(ty, "pypi") {
        return Some(entry("pypi", Namespace::Prohibited, true, false, false));
    }
    if str_eq(ty, "qpkg") {
        return Some(entry("qpkg", Namespace::Optional, false, true, false));
    }
    if str_eq(ty, "rpm") {
        return Some(entry("rpm", Namespace::Optional, false, true, false));
    }
    if str_eq(ty, "swift") {
        return Some(entry("swift", Namespace::Required, false, false, false));
    }
    if str_eq(ty, "vcpkg") {
        return Some(entry("vcpkg", Namespace::Prohibited, false, false, false));
    }
    if str_eq(ty, "vscode-extension") {
        return Some(entry("vscode-extension", Namespace::Required, false, false, false));
    }
    None
}

/// The parts of `s` between occurrences of `sep`, as `str::split` yields them.
pub open spec fn split_bytes(s: Seq<u8>, sep: u8) -> Seq<Seq<u8>>
    decreases s.len(),
{
    match first_index_of(s, sep) {
        Some(i) => {
            proof {
                lemma_first_index_of(s, sep);
            }
            seq![s.subrange(0, i)] + split_bytes(s.subrange(i + 1, s.len() as int), sep)
        },
        None => seq![s],
    }
}

/// Whether `b` is an ASCII decimal digit.
pub open spec fn is_ascii_digit(b: u8) -> bool {
    0x30 <= b <= 0x39
}

/// Whether `b` is an ASCII lowercase letter.
pub open spec fn is_ascii_lowercase(b: u8) -> bool {
    0x61 <= b <= 0x7a
}

/// A version segment of a Chrome extension: a non-empty run of ASCII digits.
pub open spec fn version_segment_ok(s: Seq<u8>) -> bool {
    s.len() > 0 && forall|i: int| 0 <= i < s.len() ==> is_ascii_digit(#[trigger] s[i])
}

/// A Chrome extension version: at most four dot-separated segments, each a non-empty
/// run of ASCII digits.
pub open spec fn chrome_version_ok(v: Seq<u8>) -> bool {
    let segments = split_bytes(v, 0x2e);
    &&& segments.len() <= 4
    &&& forall|k: int| 0 <= k < segments.len() ==> version_segment_ok(#[trigger] segments[k])
}

/// A Chrome extension id: exactly 32 bytes, each an ASCII lowercase letter.
pub open spec fn chrome_name_ok(n: Seq<u8>) -> bool {
    n.len() == 32 && forall|i: int| 0 <= i < n.len() ==> is_ascii_lowercase(#[trigger] n[i])
}

/// Position of the first required qualifier that `qs` lacks.
pub open spec fn first_missing(req: Seq<Seq<char>>, qs: Seq<(Seq<char>, Seq<char>)>) -> Option<
    int,
>
    decreases req.len(),
{
    if req.len() == 0 {
        None
    } else if !has_qualifier(qs, req[0]) {
        Some(0)
    } else {
        match first_missing(req.drop_first(), qs) {
            Some(i) => Some(i + 1),
            None => None,
        }
    }
}

/// `first_missing` picks the earliest missing qualifier, and is `None` only when all
/// are present.
pub proof fn lemma_first_missing(req: Seq<Seq<char>>, qs: Seq<(Seq<char>, Seq<char>)>)
    ensures
        match first_missing(req, qs) {
            Some(i) => 0 <= i < req.len() && !has_qualifier(qs, req[i]) && forall|j: int|
                0 <= j < i ==> has_qualifier(qs, req[j]),
            None => forall|j: int| 0 <= j < req.len() ==> has_qualifier(qs, req[j]),
        },
    decreases req.len(),
{
    if req.len() > 0 && has_qualifier(qs, req[0]) {
        lemma_first_missing(req.drop_first(), qs);
        assert forall|j: int| 0 < j < req.len() implies req[j] == req.drop_first()[j - 1] by {}
    }
}

/// The checks that only some types make of the name and version.
pub open spec fn type_specific_validation(p: PurlModel) -> Result<(), ErrorModel> {
    if p.ty == "chrome-extension"@ {
        if !chrome_name_ok(utf8_of(p.name)) {
            Err(ErrorModel::InvalidName(p.ty, p.name))
        } else {
            match p.version {
                Some(v) => if chrome_version_ok(utf8_of(v)) {
                    Ok(())
                } else {
                    Err(ErrorModel::InvalidVersion(p.ty, v))
                },
                None => Ok(()),
            }
        }
    } else if p.ty == "cpan"@ && contains_bytes(utf8_of(p.name), utf8_of("::"@)) {
        Err(ErrorModel::InvalidName(p.ty, p.name))
    } else {
        Ok(())
    }
}

/// What validating a purl gives: the first broken rule of its type, checked in this
/// order: the namespace, the required qualifiers, then the type's own name and version
/// forms. Unknown types have no rules.
pub open spec fn validation(p: PurlModel) -> Result<(), ErrorModel> {
    match type_rules(p.ty) {
        None => Ok(()),
        Some(r) => {
            if r.namespace == Namespace::Required && p.namespace is None {
                Err(ErrorModel::TypeRequiresNamespace(p.ty))
            } else if r.namespace == Namespace::Prohibited && p.namespace is Some {
                Err(ErrorModel::TypeProhibitsNamespace(p.ty))
            } else {
                match first_missing(r.required_qualifiers, p.qualifiers) {
                    Some(k) => Err(
                        ErrorModel::MissingRequiredQualifier(p.ty, r.required_qualifiers[k]),
                    ),
                    None => type_specific_validation(p),
                }
            }
        },
    }
}

/// Whether `v[from..to]` is a version segment of a Chrome extension.
fn version_segment_valid(v: &[u8], from: usize, to: usize) -> (b: bool)
    requires
        from <= to <= v@.len(),
    ensures
        b == version_segment_ok(v@.subrange(from as int, to as int)),
{
    if from == to {
        return false;
    }
    let ghost seg = v@.subrange(from as int, to as int);
    let mut i: usize = from;
    while i < to
        invariant
            from <= i <= to <= v@.len(),
            seg == v@.subrange(from as int, to as int),
            forall|j: int| 0 <= j < i - from ==> is_ascii_digit(seg[j]),
        decreases to - i,
    {
        let c = v[i];
        assert(seg[i - from] == c);
        if !(0x30 <= c && c <= 0x39) {
            return false;
        }
        i = i + 1;
    }
    true
}

/// Whether `v` is a Chrome extension version.
fn chrome_version_valid(v: &[u8]) -> (b: bool)
    ensures
        b == chrome_version_ok(v@),
{
    let ghost all = v@;
    let ghost segments = split_bytes(all, 0x2e);
    let ghost mut done: Seq<Seq<u8>> = Seq::empty();
    let mut pos: usize = 0;
    let mut count: usize = 0;
    assert(all.subrange(0, all.len() as int) =~= all);
    assert(all.len() == v.len());
    loop
        invariant
            all == v@,
            all.len() <= usize::MAX,
            segments == split_bytes(all, 0x2e),
            pos <= all.len(),
            count == done.len() < 4,
            segments == done + split_bytes(all.subrange(pos as int, all.len() as int), 0x2e),
            forall|k: int| 0 <= k < done.len() ==> version_segment_ok(#[trigger] done[k]),
        decreases all.len() - pos,
    {
        let ghost suffix = all.subrange(pos as int, all.len() as int);
        match find_from(v, 0x2e, pos) {
            None => {
                assert(split_bytes(suffix, 0x2e) == seq![suffix]);
                assert(segments == done.push(suffix));
                let ok = version_segment_valid(v, pos, v.len());
                assert(segments[done.len() as int] == suffix);
                assert(ok == chrome_version_ok(all)) by {
                    if !ok {
                        assert(!version_segment_ok(segments[done.len() as int]));
                    } else {
                        assert forall|k: int| 0 <= k < segments.len() implies version_segment_ok(
                            #[trigger] segments[k],
                        ) by {
                            if k < done.len() {
                                assert(segments[k] == done[k]);
                            }
                        }
                    }
                }
                return ok;
            },
            Some(j) => {
                proof {
                    lemma_first_index_of(suffix, 0x2e);
                }
                let ghost seg = all.subrange(pos as int, j as int);
                let ghost rest = all.subrange(j + 1, all.len() as int);
                proof {
                    lemma_first_index_of(suffix, 0x2e);
                    assert(suffix.subrange(0, j - pos) =~= seg);
                    assert(suffix.subrange(j - pos + 1, suffix.len() as int) =~= rest);
                    assert(split_bytes(suffix, 0x2e) == seq![seg] + split_bytes(rest, 0x2e));
                    assert(segments =~= done.push(seg) + split_bytes(rest, 0x2e));
                    assert(segments[done.len() as int] == seg);
                }
                if !version_segment_valid(v, pos, j) {
                    assert(!version_segment_ok(segments[done.len() as int]));
                    return false;
                }
                if count == 3 {
                    proof {
                        let tail = split_bytes(rest, 0x2e);
                        if first_index_of(rest, 0x2e) is Some {
                            lemma_first_index_of(rest, 0x2e);
                        }
                        assert(tail.len() >= 1);
                    }
                    return false;
                }
                proof {
                    done = done.push(seg);
                }
                count = count + 1;
                pos = j + 1;
            },
        }
    }
}

/// Whether `n` is a Chrome extension id.
fn chrome_name_valid(n: &[u8]) -> (b: bool)
    ensures
        b == chrome_name_ok(n@),
{
    if n.len() != 32 {
        return false;
    }
    let mut i: usize = 0;
    while i < n.len()
        invariant
            i <= n@.len(),
            forall|j: int| 0 <= j < i ==> is_ascii_lowercase(n@[j]),
        decreases n.len() - i,
    {
        let c = n[i];
        if !(0x61 <= c && c <= 0x7a) {
            return false;
        }
        i = i + 1;
    }
    true
}

/// Validates the whole purl against its type's rules; unknown types have none.
pub fn validate(purl: &PackageUrl) -> (r: Result<(), Error>)
    ensures
        outcome(r) == validation(purl@),
        type_rules(purl@.ty) is None ==> r is Ok,
{
    let rules = match rules(purl.ty.as_str()) {
        Some(rules) => rules,
        None => return Ok(()),
    };
    match rules.namespace {
        Namespace::Required => {
            if purl.namespace.is_none() {
                return Err(Error::TypeRequiresNamespace(purl.ty.clone()));
            }
        },
        Namespace::Prohibited => {
            if purl.namespace.is_some() {
                return Err(Error::TypeProhibitsNamespace(purl.ty.clone()));
            }
        },
        Namespace::Optional => {},
    }
    let ghost req = rules@.required_qualifiers;
    let ghost qs = purl@.qualifiers;
    proof {
        lemma_first_missing(req, qs);
    }
    let mut i: usize = 0;
    while i < rules.required_qualifiers.len()
        invariant
            type_rules(purl@.ty) == Some(rules@),
            !(rules@.namespace == Namespace::Required && purl@.namespace is None),
            !(rules@.namespace == Namespace::Prohibited && purl@.namespace is Some),
            req == rules@.required_qualifiers,
            req.len() == rules.required_qualifiers@.len(),
            qs == purl@.qualifiers,
            i <= req.len(),
            forall|j: int| 0 <= j < i ==> has_qualifier(qs, req[j]),
        decreases rules.required_qualifiers.len() - i,
    {
        let key = rules.required_qualifiers[i];
        assert(key@ == req[i as int]);
        if !purl.has_qualifier(key) {
            proof {
                lemma_first_missing(req, qs);
                let k = first_missing(req, qs).unwrap();
                if k < i {
                    assert(has_qualifier(qs, req[k]));
                } else if k > i {
                    assert(has_qualifier(qs, req[i as int]));
                }
            }
            return Err(Error::MissingRequiredQualifier(purl.ty.clone(), key.to_owned()));
        }
        i = i + 1;
    }
    if str_eq(purl.ty.as_str(), "chrome-extension") {
        if !chrome_name_valid(purl.name.as_str().as_bytes()) {
            return Err(Error::InvalidName(purl.ty.clone(), purl.name.clone()));
        }
        match &purl.version {
            Some(version) => {
                if !chrome_version_valid(version.as_str().as_bytes()) {
                    return Err(Error::InvalidVersion(purl.ty.clone(), version.clone()));
                }
            },
            None => {},
        }
    } else if str_eq(purl.ty.as_str(), "cpan") && contains_subslice(
        purl.name.as_str().as_bytes(),
        "::".as_bytes(),
    ) {
        return Err(Error::InvalidName(purl.ty.clone(), purl.name.clone()));
    }
    Ok(())
}

/// Whether the purl's `repository_url` qualifier names a Databricks server.
pub open spec fn on_databricks(qs: Seq<(Seq<char>, Seq<char>)>) -> bool {
    match qualifier_value(qs, "repository_url"@) {
        Some(url) => contains_bytes(utf8_of(url), utf8_of("databricks"@)),
        None => false,
    }
}

/// The canonical form of a purl as far as it depends on other components: the name of
/// an mlflow package on a Databricks server is lowercased; everything else stays.
pub open spec fn canonicalized(p: PurlModel) -> PurlModel {
    if p.ty == "mlflow"@ && on_databricks(p.qualifiers) && has_uppercase(p.name) {
        PurlModel { name: spec_str_to_lowercase(p.name), ..p }
    } else {
        p
    }
}

/// Applies the canonicalization that depends on other components: on
/// Databricks servers the mlflow name is case insensitive and lowercased,
/// while other servers keep it as-is.
pub fn canonicalize(purl: &mut PackageUrl)
    ensures
        final(purl)@ == canonicalized(old(purl)@),
        // only the name can change, and only for mlflow packages
        final(purl)@.ty == old(purl)@.ty,
        final(purl)@.namespace == old(purl)@.namespace,
        final(purl)@.version == old(purl)@.version,
        final(purl)@.qualifiers == old(purl)@.qualifiers,
        final(purl)@.subpath == old(purl)@.subpath,
        old(purl)@.ty != "mlflow"@ ==> final(purl)@ == old(purl)@,
{
    if str_eq(purl.ty.as_str(), "mlflow") {
        let databricks = match purl.qualifier("repository_url") {
            Some(url) => contains_subslice(url.as_bytes(), "databricks".as_bytes()),
            None => false,
        };
        if databricks && any_uppercase(purl.name.as_str()) {
            purl.name = str_to_lowercase(purl.name.as_str());
        }
    }
}

/// Canonicalizing a purl never changes whether, or why, it is refused by validation.
pub proof fn law_canonicalize_keeps_validation(p: PurlModel)
    ensures
        validation(canonicalized(p)) == validation(p),
{
    reveal_strlit("mlflow");
    reveal_strlit("chrome-extension");
    reveal_strlit("cpan");
    let q = canonicalized(p);
    if q != p {
        assert(p.ty == "mlflow"@);
        assert("mlflow"@ != "chrome-extension"@ && "mlflow"@ != "cpan"@) by {
            assert("mlflow"@.len() != "chrome-extension"@.len());
            assert("mlflow"@.len() != "cpan"@.len());
        }
        assert(type_specific_validation(q) == type_specific_validation(p));
    }
}

} // verus!
