//! Laws of the package-type rules, of validation and of canonicalization, each stated
//! over the inputs and results themselves.

use vstd::prelude::*;

use crate::bytes::{first_index_of, lemma_first_index_at, lemma_first_index_of};
use crate::error::ErrorModel;
use crate::purl::PurlModel;
use crate::bytes::utf8_of;
use crate::utils::{lowercased, spec_is_uppercase, spec_str_to_lowercase};
use crate::types::{
    canonicalized, chrome_version_ok, first_missing, lemma_first_missing, split_bytes, type_rules, validation,
    Namespace,
};

verus! {

/// The rules of each package type, as the purl-spec type definitions give them: the
/// known types; those that need, or forbid, a namespace; those whose name, namespace or
/// version is lowercased; and `julia`, the one type that requires a qualifier, `uuid`.
pub proof fn law_type_rules_table(ty: Seq<char>)
    ensures
        type_rules(ty) is Some <==> (
            ty == "apk"@
            || ty == "bitbucket"@
            || ty == "bitnami"@
            || ty == "cargo"@
            || ty == "chrome-extension"@
            || ty == "cocoapods"@
            || ty == "composer"@
            || ty == "conda"@
            || ty == "cpan"@
            || ty == "cran"@
            || ty == "deb"@
            || ty == "gem"@
            || ty == "github"@
            || ty == "golang"@
            || ty == "hackage"@
            || ty == "hex"@
            || ty == "huggingface"@
            || ty == "julia"@
            || ty == "mlflow"@
            || ty == "npm"@
            || ty == "nuget"@
            || ty == "oci"@
            || ty == "otp"@
            || ty == "pub"@
            || ty == "pypi"@
            || ty == "qpkg"@
            || ty == "rpm"@
            || ty == "swift"@
            || ty == "vcpkg"@
            || ty == "vscode-extension"@
        ),
        (type_rules(ty) matches Some(r) && r.namespace == Namespace::Required) <==> (
            ty == "composer"@
            || ty == "cpan"@
            || ty == "huggingface"@
            || ty == "swift"@
            || ty == "vscode-extension"@
        ),
        (type_rules(ty) matches Some(r) && r.namespace == Namespace::Prohibited) <==> (
            ty == "bitnami"@
            || ty == "cargo"@
            || ty == "chrome-extension"@
            || ty == "cocoapods"@
            || ty == "conda"@
            || ty == "cran"@
            || ty == "gem"@
            || ty == "hackage"@
            || ty == "julia"@
            || ty == "mlflow"@
            || ty == "nuget"@
            || ty == "oci"@
            || ty == "otp"@
            || ty == "pub"@
            || ty == "pypi"@
            || ty == "vcpkg"@
        ),
        (type_rules(ty) matches Some(r) && r.lowercase_name) <==> (
            ty == "bitbucket"@
            || ty == "composer"@
            || ty == "deb"@
            || ty == "github"@
            || ty == "hex"@
            || ty == "npm"@
            || ty == "pypi"@
        ),
        (type_rules(ty) matches Some(r) && r.lowercase_namespace) <==> (
            ty == "apk"@
            || ty == "bitbucket"@
            || ty == "composer"@
            || ty == "deb"@
            || ty == "github"@
            || ty == "golang"@
            || ty == "hex"@
            || ty == "qpkg"@
            || ty == "rpm"@
        ),
        (type_rules(ty) matches Some(r) && r.lowercase_version) <==> (
            ty == "huggingface"@
        ),
        (type_rules(ty) matches Some(r) && r.required_qualifiers.len() > 0) <==> ty == "julia"@,
        ty == "julia"@ ==> (type_rules(ty) matches Some(r) && r.required_qualifiers
            == seq!["uuid"@]),
        type_rules(ty) matches Some(r) ==> r.ty == ty,
{
    reveal_strlit("apk");
    assert("apk"@ =~= seq!['a', 'p', 'k']);
    reveal_strlit("bitbucket");
    assert("bitbucket"@ =~= seq!['b', 'i', 't', 'b', 'u', 'c', 'k', 'e', 't']);
    reveal_strlit("bitnami");
    assert("bitnami"@ =~= seq!['b', 'i', 't', 'n', 'a', 'm', 'i']);
    reveal_strlit("cargo");
    assert("cargo"@ =~= seq!['c', 'a', 'r', 'g', 'o']);
    reveal_strlit("chrome-extension");
    assert("chrome-extension"@ =~= seq!['c', 'h', 'r', 'o', 'm', 'e', '-', 'e', 'x', 't', 'e', 'n', 's', 'i', 'o', 'n']);
    reveal_strlit("cocoapods");
    assert("cocoapods"@ =~= seq!['c', 'o', 'c', 'o', 'a', 'p', 'o', 'd', 's']);
    reveal_strlit("composer");
    assert("composer"@ =~= seq!['c', 'o', 'm', 'p', 'o', 's', 'e', 'r']);
    reveal_strlit("conda");
    assert("conda"@ =~= seq!['c', 'o', 'n', 'd', 'a']);
    reveal_strlit("cpan");
    assert("cpan"@ =~= seq!['c', 'p', 'a', 'n']);
    reveal_strlit("cran");
    assert("cran"@ =~= seq!['c', 'r', 'a', 'n']);
    reveal_strlit("deb");
    assert("deb"@ =~= seq!['d', 'e', 'b']);
    reveal_strlit("gem");
    assert("gem"@ =~= seq!['g', 'e', 'm']);
    reveal_strlit("github");
    assert("github"@ =~= seq!['g', 'i', 't', 'h', 'u', 'b']);
    reveal_strlit("golang");
    assert("golang"@ =~= seq!['g', 'o', 'l', 'a', 'n', 'g']);
    reveal_strlit("hackage");
    assert("hackage"@ =~= seq!['h', 'a', 'c', 'k', 'a', 'g', 'e']);
    reveal_strlit("hex");
    assert("hex"@ =~= seq!['h', 'e', 'x']);
    reveal_strlit("huggingface");
    assert("huggingface"@ =~= seq!['h', 'u', 'g', 'g', 'i', 'n', 'g', 'f', 'a', 'c', 'e']);
    reveal_strlit("julia");
    assert("julia"@ =~= seq!['j', 'u', 'l', 'i', 'a']);
    reveal_strlit("mlflow");
    assert("mlflow"@ =~= seq!['m', 'l', 'f', 'l', 'o', 'w']);
    reveal_strlit("npm");
    assert("npm"@ =~= seq!['n', 'p', 'm']);
    reveal_strlit("nuget");
    assert("nuget"@ =~= seq!['n', 'u', 'g', 'e', 't']);
    reveal_strlit("oci");
    assert("oci"@ =~= seq!['o', 'c', 'i']);
    reveal_strlit("otp");
    assert("otp"@ =~= seq!['o', 't', 'p']);
    reveal_strlit("pub");
    assert("pub"@ =~= seq!['p', 'u', 'b']);
    reveal_strlit("pypi");
    assert("pypi"@ =~= seq!['p', 'y', 'p', 'i']);
    reveal_strlit("qpkg");
    assert("qpkg"@ =~= seq!['q', 'p', 'k', 'g']);
    reveal_strlit("rpm");
    assert("rpm"@ =~= seq!['r', 'p', 'm']);
    reveal_strlit("swift");
    assert("swift"@ =~= seq!['s', 'w', 'i', 'f', 't']);
    reveal_strlit("vcpkg");
    assert("vcpkg"@ =~= seq!['v', 'c', 'p', 'k', 'g']);
    reveal_strlit("vscode-extension");
    assert("vscode-extension"@ =~= seq!['v', 's', 'c', 'o', 'd', 'e', '-', 'e', 'x', 't', 'e', 'n', 's', 'i', 'o', 'n']);
    reveal_strlit("uuid");
    assert("uuid"@ =~= seq!['u', 'u', 'i', 'd']);
    if ty == "apk"@ {
        assert(type_rules(ty).unwrap().namespace == Namespace::Optional);
    } else if ty == "bitbucket"@ {
        assert(type_rules(ty).unwrap().namespace == Namespace::Optional);
    } else if ty == "bitnami"@ {
        assert(type_rules(ty).unwrap().namespace == Namespace::Prohibited);
    } else if ty == "cargo"@ {
        assert(type_rules(ty).unwrap().namespace == Namespace::Prohibited);
    } else if ty == "chrome-extension"@ {
        assert(type_rules(ty).unwrap().namespace == Namespace::Prohibited);
    } else if ty == "cocoapods"@ {
        assert(type_rules(ty).unwrap().namespace == Namespace::Prohibited);
    } else if ty == "composer"@ {
        assert(type_rules(ty).unwrap().namespace == Namespace::Required);
    } else if ty == "conda"@ {
        assert(type_rules(ty).unwrap().namespace == Namespace::Prohibited);
    } else if ty == "cpan"@ {
        assert(type_rules(ty).unwrap().namespace == Namespace::Required);
    } else if ty == "cran"@ {
        assert(type_rules(ty).unwrap().namespace == Namespace::Prohibited);
    } else if ty == "deb"@ {
        assert(type_rules(ty).unwrap().namespace == Namespace::Optional);
    } else if ty == "gem"@ {
        assert(type_rules(ty).unwrap().namespace == Namespace::Prohibited);
    } else if ty == "github"@ {
        assert(type_rules(ty).unwrap().namespace == Namespace::Optional);
    } else if ty == "golang"@ {
        assert(type_rules(ty).unwrap().namespace == Namespace::Optional);
    } else if ty == "hackage"@ {
        assert(type_rules(ty).unwrap().namespace == Namespace::Prohibited);
    } else if ty == "hex"@ {
        assert(type_rules(ty).unwrap().namespace == Namespace::Optional);
    } else if ty == "huggingface"@ {
        assert(type_rules(ty).unwrap().namespace == Namespace::Required);
    } else if ty == "julia"@ {
        assert(type_rules(ty).unwrap().namespace == Namespace::Prohibited);
    } else if ty == "mlflow"@ {
        assert(type_rules(ty).unwrap().namespace == Namespace::Prohibited);
    } else if ty == "npm"@ {
        assert(type_rules(ty).unwrap().namespace == Namespace::Optional);
    } else if ty == "nuget"@ {
        assert(type_rules(ty).unwrap().namespace == Namespace::Prohibited);
    } else if ty == "oci"@ {
        assert(type_rules(ty).unwrap().namespace == Namespace::Prohibited);
    } else if ty == "otp"@ {
        assert(type_rules(ty).unwrap().namespace == Namespace::Prohibited);
    } else if ty == "pub"@ {
        assert(type_rules(ty).unwrap().namespace == Namespace::Prohibited);
    } else if ty == "pypi"@ {
        assert(type_rules(ty).unwrap().namespace == Namespace::Prohibited);
    } else if ty == "qpkg"@ {
        assert(type_rules(ty).unwrap().namespace == Namespace::Optional);
    } else if ty == "rpm"@ {
        assert(type_rules(ty).unwrap().namespace == Namespace::Optional);
    } else if ty == "swift"@ {
        assert(type_rules(ty).unwrap().namespace == Namespace::Required);
    } else if ty == "vcpkg"@ {
        assert(type_rules(ty).unwrap().namespace == Namespace::Prohibited);
    } else if ty == "vscode-extension"@ {
        assert(type_rules(ty).unwrap().namespace == Namespace::Required);
    }
}

/// Segments put back together with `sep` between each two.
pub open spec fn join_bytes(segs: Seq<Seq<u8>>, sep: u8) -> Seq<u8>
    decreases segs.len(),
{
    if segs.len() == 0 {
        Seq::empty()
    } else if segs.len() == 1 {
        segs[0]
    } else {
        segs[0] + seq![sep] + join_bytes(segs.drop_first(), sep)
    }
}

/// Whether `s` holds no `sep`.
pub open spec fn free_of(s: Seq<u8>, sep: u8) -> bool {
    forall|i: int| 0 <= i < s.len() ==> s[i] != sep
}

/// Splitting cuts `s` into at least one piece, no piece holds the separator, and the
/// pieces joined by the separator give `s` back.
pub proof fn law_split_join(s: Seq<u8>, sep: u8)
    ensures
        split_bytes(s, sep).len() >= 1,
        forall|k: int| 0 <= k < split_bytes(s, sep).len() ==> free_of(#[trigger] split_bytes(s, sep)[k], sep),
        join_bytes(split_bytes(s, sep), sep) == s,
    decreases s.len(),
{
    lemma_first_index_of(s, sep);
    match first_index_of(s, sep) {
        Some(i) => {
            let head = s.subrange(0, i);
            let rest = s.subrange(i + 1, s.len() as int);
            law_split_join(rest, sep);
            let segs = split_bytes(s, sep);
            assert(segs == seq![head] + split_bytes(rest, sep));
            assert(segs.drop_first() =~= split_bytes(rest, sep));
            assert(segs[0] == head);
            assert forall|k: int| 0 <= k < segs.len() implies free_of(#[trigger] segs[k], sep) by {
                if k > 0 {
                    assert(segs[k] == split_bytes(rest, sep)[k - 1]);
                }
            }
            assert(head + seq![sep] + rest =~= s);
        },
        None => {
            assert(split_bytes(s, sep) =~= seq![s]);
        },
    }
}

/// Pieces free of the separator, joined by it, split back into the same pieces.
pub proof fn law_split_of_join(segs: Seq<Seq<u8>>, sep: u8)
    requires
        segs.len() >= 1,
        forall|k: int| 0 <= k < segs.len() ==> free_of(#[trigger] segs[k], sep),
    ensures
        split_bytes(join_bytes(segs, sep), sep) == segs,
    decreases segs.len(),
{
    let s = join_bytes(segs, sep);
    assert(free_of(segs[0], sep));
    if segs.len() == 1 {
        lemma_first_index_of(s, sep);
        assert(split_bytes(s, sep) =~= seq![s]);
        assert(segs =~= seq![segs[0]]);
    } else {
        let rest = segs.drop_first();
        assert forall|k: int| 0 <= k < rest.len() implies free_of(#[trigger] rest[k], sep) by {
            assert(rest[k] == segs[k + 1]);
        }
        law_split_of_join(rest, sep);
        let n = segs[0].len() as int;
        let tail = join_bytes(rest, sep);
        assert(s == segs[0] + seq![sep] + tail);
        assert(s[n] == sep);
        assert forall|j: int| 0 <= j < n implies s[j] != sep by {
            assert(s[j] == segs[0][j]);
        }
        lemma_first_index_at(s, sep, n);
        assert(s.subrange(0, n) =~= segs[0]);
        assert(s.subrange(n + 1, s.len() as int) =~= tail);
        assert(segs =~= seq![segs[0]] + rest);
    }
}

/// Whether every byte of `s` is an ASCII decimal digit.
pub open spec fn all_ascii_digits(s: Seq<u8>) -> bool {
    forall|i: int| 0 <= i < s.len() ==> 0x30 <= #[trigger] s[i] <= 0x39
}

/// A Chrome extension version is accepted exactly when it is one to four non-empty runs
/// of ASCII digits joined by dots, whatever the digits.
pub proof fn law_chrome_version(v: Seq<u8>)
    ensures
        chrome_version_ok(v) <==> exists|segs: Seq<Seq<u8>>|
            {
                &&& 1 <= segs.len() <= 4
                &&& forall|k: int|
                    0 <= k < segs.len() ==> (#[trigger] segs[k]).len() > 0 && all_ascii_digits(
                        segs[k],
                    )
                &&& join_bytes(segs, 0x2e) == v
            },
{
    law_split_join(v, 0x2e);
    let split = split_bytes(v, 0x2e);
    if chrome_version_ok(v) {
        assert forall|k: int| 0 <= k < split.len() implies (#[trigger] split[k]).len() > 0
            && all_ascii_digits(split[k]) by {
            assert(split[k].len() > 0);
            assert forall|i: int| 0 <= i < split[k].len() implies 0x30 <= #[trigger] split[k][i]
                <= 0x39 by {
                assert(crate::types::version_segment_ok(split[k]));
            }
        }
    }
    if exists|segs: Seq<Seq<u8>>|
        {
            &&& 1 <= segs.len() <= 4
            &&& forall|k: int|
                0 <= k < segs.len() ==> (#[trigger] segs[k]).len() > 0 && all_ascii_digits(
                    segs[k],
                )
            &&& join_bytes(segs, 0x2e) == v
        } {
        let segs = choose|segs: Seq<Seq<u8>>|
            {
                &&& 1 <= segs.len() <= 4
                &&& forall|k: int|
                    0 <= k < segs.len() ==> (#[trigger] segs[k]).len() > 0 && all_ascii_digits(
                        segs[k],
                    )
                &&& join_bytes(segs, 0x2e) == v
            };
        assert forall|k: int| 0 <= k < segs.len() implies free_of(#[trigger] segs[k], 0x2e) by {
            assert(all_ascii_digits(segs[k]));
            assert forall|i: int| 0 <= i < segs[k].len() implies segs[k][i] != 0x2e by {
                assert(0x30 <= segs[k][i] <= 0x39);
            }
        }
        law_split_of_join(segs, 0x2e);
        assert(split == segs);
        assert forall|k: int| 0 <= k < split.len() implies crate::types::version_segment_ok(
            #[trigger] split[k],
        ) by {
            assert(all_ascii_digits(segs[k]));
        }
    }
}

/// Whether some qualifier of the purl has the key `key`.
pub open spec fn carries(p: PurlModel, key: Seq<char>) -> bool {
    exists|i: int| 0 <= i < p.qualifiers.len() && (#[trigger] p.qualifiers[i]).0 == key
}

/// Whether the purl meets its known type's namespace rule.
pub open spec fn namespace_rule_holds(p: PurlModel) -> bool {
    let r = type_rules(p.ty).unwrap();
    &&& r.namespace == Namespace::Required ==> p.namespace is Some
    &&& r.namespace == Namespace::Prohibited ==> p.namespace is None
}

/// Unknown types have no rules: every purl of one is accepted.
pub proof fn law_unknown_types_accepted(p: PurlModel)
    requires
        type_rules(p.ty) is None,
    ensures
        validation(p) == Ok::<(), ErrorModel>(()),
{
}

/// A known type's namespace rule is checked first: a purl that breaks it is refused for
/// that, whatever else it holds.
pub proof fn law_namespace_rule(p: PurlModel)
    requires
        type_rules(p.ty) is Some,
    ensures
        type_rules(p.ty).unwrap().namespace == Namespace::Required && p.namespace is None
            ==> validation(p) == Err::<(), ErrorModel>(ErrorModel::TypeRequiresNamespace(p.ty)),
        type_rules(p.ty).unwrap().namespace == Namespace::Prohibited && p.namespace is Some
            ==> validation(p) == Err::<(), ErrorModel>(ErrorModel::TypeProhibitsNamespace(p.ty)),
{
}

/// Once the namespace rule holds, a purl that lacks a required qualifier is refused for
/// the first one it lacks, however many other qualifiers it carries (none included).
pub proof fn law_missing_required_qualifier(p: PurlModel, k: int)
    requires
        type_rules(p.ty) is Some,
        namespace_rule_holds(p),
        0 <= k < type_rules(p.ty).unwrap().required_qualifiers.len(),
        !carries(p, type_rules(p.ty).unwrap().required_qualifiers[k]),
        forall|j: int| 0 <= j < k ==> carries(p, type_rules(p.ty).unwrap().required_qualifiers[j]),
    ensures
        validation(p) == Err::<(), ErrorModel>(
            ErrorModel::MissingRequiredQualifier(p.ty, type_rules(p.ty).unwrap().required_qualifiers[k]),
        ),
{
    let req = type_rules(p.ty).unwrap().required_qualifiers;
    lemma_first_missing(req, p.qualifiers);
    let m = first_missing(req, p.qualifiers);
    assert(crate::purl::has_qualifier(p.qualifiers, req[k]) == carries(p, req[k]));
    match m {
        Some(f) => {
            if f < k {
                assert(carries(p, req[f]));
                assert(crate::purl::has_qualifier(p.qualifiers, req[f]));
            } else if f > k {
                assert(crate::purl::has_qualifier(p.qualifiers, req[k]));
            }
        },
        None => {
            assert(crate::purl::has_qualifier(p.qualifiers, req[k]));
        },
    }
}

/// A `julia` purl without a namespace and without a `uuid` qualifier is refused for the
/// missing `uuid`, whatever its name, version and other qualifiers.
pub proof fn law_julia_requires_uuid(p: PurlModel)
    requires
        p.ty == "julia"@,
        p.namespace is None,
        forall|i: int| 0 <= i < p.qualifiers.len() ==> (#[trigger] p.qualifiers[i]).0 != "uuid"@,
    ensures
        validation(p) == Err::<(), ErrorModel>(
            ErrorModel::MissingRequiredQualifier("julia"@, "uuid"@),
        ),
{
    law_type_rules_table(p.ty);
    let req = type_rules(p.ty).unwrap().required_qualifiers;
    assert(req[0] == "uuid"@);
    law_missing_required_qualifier(p, 0);
}

/// Whether a name is a Chrome extension id: 32 bytes, each an ASCII lowercase letter.
pub open spec fn is_extension_id(name: Seq<char>) -> bool {
    &&& utf8_of(name).len() == 32
    &&& forall|i: int| 0 <= i < 32 ==> 0x61 <= #[trigger] utf8_of(name)[i] <= 0x7a
}

/// Whether a version is one to four non-empty runs of ASCII digits joined by dots.
pub open spec fn is_extension_version(v: Seq<char>) -> bool {
    exists|segs: Seq<Seq<u8>>|
        {
            &&& 1 <= segs.len() <= 4
            &&& forall|k: int|
                0 <= k < segs.len() ==> (#[trigger] segs[k]).len() > 0 && all_ascii_digits(segs[k])
            &&& join_bytes(segs, 0x2e) == utf8_of(v)
        }
}

/// A `chrome-extension` purl without a namespace is refused for its name unless the name
/// is an extension id, then for its version unless the version is one to four runs of
/// digits joined by dots; otherwise it is accepted.
pub proof fn law_chrome_extension(p: PurlModel)
    requires
        p.ty == "chrome-extension"@,
        p.namespace is None,
    ensures
        !is_extension_id(p.name) ==> validation(p) == Err::<(), ErrorModel>(
            ErrorModel::InvalidName(p.ty, p.name),
        ),
        is_extension_id(p.name) && p.version is None ==> validation(p) == Ok::<(), ErrorModel>(()),
        is_extension_id(p.name) && p.version is Some ==> (validation(p) == if is_extension_version(
            p.version.unwrap(),
        ) {
            Ok::<(), ErrorModel>(())
        } else {
            Err(ErrorModel::InvalidVersion(p.ty, p.version.unwrap()))
        }),
{
    law_type_rules_table(p.ty);
    let req = type_rules(p.ty).unwrap().required_qualifiers;
    assert(first_missing(req, p.qualifiers) is None);
    assert(crate::types::chrome_name_ok(utf8_of(p.name)) == is_extension_id(p.name));
    if let Some(v) = p.version {
        law_chrome_version(utf8_of(v));
    }
}

/// Whether a name holds `::`.
pub open spec fn holds_double_colon(name: Seq<char>) -> bool {
    exists|i: int|
        0 <= i && i + 1 < utf8_of(name).len() && #[trigger] utf8_of(name)[i] == 0x3a && utf8_of(
            name,
        )[i + 1] == 0x3a
}

/// A `cpan` purl with a namespace is refused exactly when its name holds `::`.
pub proof fn law_cpan(p: PurlModel)
    requires
        p.ty == "cpan"@,
        p.namespace is Some,
    ensures
        validation(p) == if holds_double_colon(p.name) {
            Err::<(), ErrorModel>(ErrorModel::InvalidName(p.ty, p.name))
        } else {
            Ok(())
        },
{
    law_type_rules_table(p.ty);
    let req = type_rules(p.ty).unwrap().required_qualifiers;
    assert(first_missing(req, p.qualifiers) is None);
    reveal_strlit("cpan");
    reveal_strlit("chrome-extension");
    reveal_strlit("::");
    assert("cpan"@ != "chrome-extension"@) by {
        assert("cpan"@.len() != "chrome-extension"@.len());
    }
    let colons = utf8_of("::"@);
    assert("::"@ =~= seq![':', ':']);
    assert(colons =~= seq![0x3au8, 0x3au8]) by {
        crate::bytes::lemma_encode_ascii_char(0x3a);
        crate::bytes::lemma_encode_utf8_concat(seq![':'], seq![':']);
        assert(seq![':'] + seq![':'] =~= seq![':', ':']);
        assert((0x3au8 as char) == ':');
    }
    let b = utf8_of(p.name);
    if holds_double_colon(p.name) {
        let i = choose|i: int| 0 <= i && i + 1 < b.len() && #[trigger] b[i] == 0x3a && b[i + 1] == 0x3a;
        assert(b.subrange(i, i + colons.len()) =~= colons);
    } else if crate::bytes::contains_bytes(b, colons) {
        let i = choose|i: int| 0 <= i && i + colons.len() <= b.len() && #[trigger] b.subrange(i, i + colons.len()) == colons;
        assert(b.subrange(i, i + 2)[0] == b[i]);
        assert(b.subrange(i, i + 2)[1] == b[i + 1]);
    }
}

/// A purl of a known type other than `chrome-extension` and `cpan` is accepted once it
/// meets the namespace rule and carries every required qualifier.
pub proof fn law_other_known_types(p: PurlModel)
    requires
        type_rules(p.ty) is Some,
        p.ty != "chrome-extension"@,
        p.ty != "cpan"@,
        namespace_rule_holds(p),
        forall|k: int|
            0 <= k < type_rules(p.ty).unwrap().required_qualifiers.len() ==> carries(
                p,
                #[trigger] type_rules(p.ty).unwrap().required_qualifiers[k],
            ),
    ensures
        validation(p) == Ok::<(), ErrorModel>(()),
{
    let req = type_rules(p.ty).unwrap().required_qualifiers;
    lemma_first_missing(req, p.qualifiers);
    if let Some(f) = first_missing(req, p.qualifiers) {
        assert(carries(p, req[f]));
        assert(crate::purl::has_qualifier(p.qualifiers, req[f]));
    }
}

/// Whether some character of `s`, at any position, is uppercase.
pub open spec fn some_char_uppercase(s: Seq<char>) -> bool {
    exists|i: int| 0 <= i < s.len() && #[trigger] spec_is_uppercase(s[i])
}

/// Lowercasing gives the Unicode lowercase mapping of the whole string as soon as any
/// character, at any position, is uppercase, and the string itself when none is.
pub proof fn law_lowercased(s: Seq<char>)
    ensures
        some_char_uppercase(s) ==> lowercased(s) == spec_str_to_lowercase(s),
        !some_char_uppercase(s) ==> lowercased(s) == s,
{
}

/// Whether the first `repository_url` qualifier of the purl holds `databricks`.
pub open spec fn first_repository_on_databricks(p: PurlModel) -> bool {
    exists|i: int|
        {
            &&& 0 <= i < p.qualifiers.len()
            &&& (#[trigger] p.qualifiers[i]).0 == "repository_url"@
            &&& forall|j: int| 0 <= j < i ==> p.qualifiers[j].0 != "repository_url"@
            &&& exists|o: int|
                0 <= o && o + utf8_of("databricks"@).len() <= utf8_of(p.qualifiers[i].1).len()
                    && #[trigger] utf8_of(p.qualifiers[i].1).subrange(
                    o,
                    o + utf8_of("databricks"@).len(),
                ) == utf8_of("databricks"@)
        }
}

/// Whether a purl is an `mlflow` purl on Databricks with an uppercase character in its
/// name.
pub open spec fn lowercases_name(p: PurlModel) -> bool {
    &&& p.ty == "mlflow"@
    &&& first_repository_on_databricks(p)
    &&& some_char_uppercase(p.name)
}

/// Canonicalization lowercases the whole name of an `mlflow` purl whose first
/// `repository_url` holds `databricks` as soon as any character of the name is
/// uppercase, and leaves every other purl as it is.
pub proof fn law_canonicalized(p: PurlModel)
    ensures
        lowercases_name(p) ==> canonicalized(p) == (PurlModel {
            name: spec_str_to_lowercase(p.name),
            ..p
        }),
        !lowercases_name(p) ==> canonicalized(p) == p,
{
    let key = "repository_url"@;
    crate::purl::lemma_qualifier_index(p.qualifiers, key);
    let on = crate::types::on_databricks(p.qualifiers);
    assert(on == first_repository_on_databricks(p)) by {
        match crate::purl::qualifier_index(p.qualifiers, key) {
            Some(i) => {
                if first_repository_on_databricks(p) {
                    let i2 = choose|i2: int|
                        {
                            &&& 0 <= i2 < p.qualifiers.len()
                            &&& (#[trigger] p.qualifiers[i2]).0 == key
                            &&& forall|j: int| 0 <= j < i2 ==> p.qualifiers[j].0 != key
                            &&& exists|o: int|
                                0 <= o && o + utf8_of("databricks"@).len() <= utf8_of(
                                    p.qualifiers[i2].1,
                                ).len() && #[trigger] utf8_of(p.qualifiers[i2].1).subrange(
                                    o,
                                    o + utf8_of("databricks"@).len(),
                                ) == utf8_of("databricks"@)
                        };
                    if i2 < i {
                    } else if i < i2 {
                        assert(p.qualifiers[i].0 == key);
                    }
                }
                if on {
                    assert(p.qualifiers[i].0 == key);
                }
            },
            None => {
                if first_repository_on_databricks(p) {
                    let i2 = choose|i2: int|
                        {
                            &&& 0 <= i2 < p.qualifiers.len()
                            &&& (#[trigger] p.qualifiers[i2]).0 == key
                            &&& forall|j: int| 0 <= j < i2 ==> p.qualifiers[j].0 != key
                            &&& exists|o: int|
                                0 <= o && o + utf8_of("databricks"@).len() <= utf8_of(
                                    p.qualifiers[i2].1,
                                ).len() && #[trigger] utf8_of(p.qualifiers[i2].1).subrange(
                                    o,
                                    o + utf8_of("databricks"@).len(),
                                ) == utf8_of("databricks"@)
                        };
                    assert(p.qualifiers[i2].0 != key);
                }
            },
        }
    }
}

} // verus!
