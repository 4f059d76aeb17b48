use packageurl::{canonicalize, rules, validate, Error, Namespace, PackageUrl};

fn purl(
    ty: &str,
    namespace: Option<&str>,
    name: &str,
    version: Option<&str>,
    qualifiers: &[(&str, &str)],
) -> PackageUrl {
    PackageUrl {
        ty: ty.to_string(),
        namespace: namespace.map(|s| s.to_string()),
        name: name.to_string(),
        version: version.map(|s| s.to_string()),
        qualifiers: qualifiers
            .iter()
            .map(|(k, v)| (k.to_string(), v.to_string()))
            .collect(),
        subpath: None,
    }
}

const EXTENSION_ID: &str = "abcdefghijklmnopabcdefghijklmnop";

#[test]
fn rules_of_known_types() {
    let julia = rules("julia").unwrap();
    assert_eq!(julia.ty, "julia");
    assert_eq!(julia.namespace, Namespace::Prohibited);
    assert_eq!(julia.required_qualifiers, vec!["uuid"]);

    let npm = rules("npm").unwrap();
    assert_eq!(npm.namespace, Namespace::Optional);
    assert!(npm.lowercase_name);
    assert!(!npm.lowercase_namespace);
    assert!(npm.required_qualifiers.is_empty());

    let composer = rules("composer").unwrap();
    assert_eq!(composer.namespace, Namespace::Required);
    assert!(composer.lowercase_name && composer.lowercase_namespace);

    let hf = rules("huggingface").unwrap();
    assert!(hf.lowercase_version);
    assert_eq!(hf.namespace, Namespace::Required);

    assert_eq!(rules("vscode-extension").unwrap().namespace, Namespace::Required);
    assert_eq!(rules("apk").unwrap().namespace, Namespace::Optional);
}

#[test]
fn rules_of_unknown_types() {
    assert!(rules("").is_none());
    assert!(rules("maven").is_none());
    assert!(rules("NPM").is_none());
    assert!(rules("npm ").is_none());
}

#[test]
fn unknown_types_are_always_valid() {
    assert_eq!(validate(&purl("maven", None, "Anything::Goes", None, &[])), Ok(()));
    assert_eq!(validate(&purl("generic", Some("ns"), "x", Some(".."), &[])), Ok(()));
}

#[test]
fn namespace_required() {
    assert_eq!(
        validate(&purl("composer", None, "laravel", None, &[])),
        Err(Error::TypeRequiresNamespace("composer".to_string()))
    );
    assert_eq!(validate(&purl("composer", Some("laravel"), "laravel", None, &[])), Ok(()));
}

#[test]
fn namespace_prohibited() {
    assert_eq!(
        validate(&purl("cargo", Some("rust"), "serde", None, &[])),
        Err(Error::TypeProhibitsNamespace("cargo".to_string()))
    );
    assert_eq!(validate(&purl("cargo", None, "serde", None, &[])), Ok(()));
}

#[test]
fn namespace_optional() {
    assert_eq!(validate(&purl("npm", Some("@angular"), "core", None, &[])), Ok(()));
    assert_eq!(validate(&purl("npm", None, "lodash", None, &[])), Ok(()));
}

#[test]
fn required_qualifier() {
    assert_eq!(
        validate(&purl("julia", None, "Flux", None, &[("repo", "x")])),
        Err(Error::MissingRequiredQualifier("julia".to_string(), "uuid".to_string()))
    );
    assert_eq!(
        validate(&purl("julia", None, "Flux", None, &[("uuid", "587475ba")])),
        Ok(())
    );
}

#[test]
fn namespace_is_checked_before_qualifiers() {
    assert_eq!(
        validate(&purl("julia", Some("ns"), "Flux", None, &[])),
        Err(Error::TypeProhibitsNamespace("julia".to_string()))
    );
}

#[test]
fn chrome_extension_name() {
    assert_eq!(validate(&purl("chrome-extension", None, EXTENSION_ID, None, &[])), Ok(()));
    let upper = "Abcdefghijklmnopabcdefghijklmnop";
    assert_eq!(
        validate(&purl("chrome-extension", None, upper, None, &[])),
        Err(Error::InvalidName("chrome-extension".to_string(), upper.to_string()))
    );
    let short = "abcdefghijklmnopabcdefghijklmno";
    assert_eq!(
        validate(&purl("chrome-extension", None, short, None, &[])),
        Err(Error::InvalidName("chrome-extension".to_string(), short.to_string()))
    );
}

#[test]
fn chrome_extension_version() {
    for good in ["1", "1.2", "1.2.3", "1.2.3.4", "0010.7"] {
        assert_eq!(
            validate(&purl("chrome-extension", None, EXTENSION_ID, Some(good), &[])),
            Ok(()),
            "{good}"
        );
    }
    for bad in ["", "1.2.3.4.5", "1..2", ".1", "1.", "1.a", "v1", "1.2-beta"] {
        assert_eq!(
            validate(&purl("chrome-extension", None, EXTENSION_ID, Some(bad), &[])),
            Err(Error::InvalidVersion("chrome-extension".to_string(), bad.to_string())),
            "{bad}"
        );
    }
}

#[test]
fn chrome_extension_name_checked_before_version() {
    assert_eq!(
        validate(&purl("chrome-extension", None, "bad", Some("x"), &[])),
        Err(Error::InvalidName("chrome-extension".to_string(), "bad".to_string()))
    );
}

#[test]
fn cpan_name() {
    assert_eq!(
        validate(&purl("cpan", Some("OALDERS"), "URI::PackageURL", None, &[])),
        Err(Error::InvalidName("cpan".to_string(), "URI::PackageURL".to_string()))
    );
    assert_eq!(validate(&purl("cpan", Some("OALDERS"), "URI-PackageURL", None, &[])), Ok(()));
    assert_eq!(validate(&purl("cpan", Some("OALDERS"), "a:b", None, &[])), Ok(()));
}

#[test]
fn mlflow_on_databricks_is_lowercased() {
    let mut p = purl(
        "mlflow",
        None,
        "CreditFraud",
        Some("3"),
        &[("repository_url", "https://adb-5245952564735461.0.azuredatabricks.net/api/2.0/mlflow")],
    );
    canonicalize(&mut p);
    assert_eq!(p.name, "creditfraud");
    assert_eq!(p.version.as_deref(), Some("3"));
}

#[test]
fn mlflow_elsewhere_keeps_its_name() {
    let mut p = purl(
        "mlflow",
        None,
        "CreditFraud",
        None,
        &[("repository_url", "https://westus2.api.azureml.ms/mlflow/v1.0")],
    );
    canonicalize(&mut p);
    assert_eq!(p.name, "CreditFraud");

    let mut q = purl("mlflow", None, "CreditFraud", None, &[]);
    canonicalize(&mut q);
    assert_eq!(q.name, "CreditFraud");
}

#[test]
fn other_types_are_not_canonicalized() {
    let mut p = purl(
        "pypi",
        None,
        "Django",
        None,
        &[("repository_url", "https://databricks.example")],
    );
    canonicalize(&mut p);
    assert_eq!(p.name, "Django");
}

#[test]
fn canonicalize_keeps_validation() {
    let mut p = purl(
        "mlflow",
        Some("ns"),
        "Model",
        None,
        &[("repository_url", "databricks")],
    );
    let before = validate(&p);
    canonicalize(&mut p);
    assert_eq!(p.name, "model");
    assert_eq!(validate(&p), before);
    assert_eq!(before, Err(Error::TypeProhibitsNamespace("mlflow".to_string())));
}

#[test]
fn qualifier_lookup() {
    let p = purl("npm", None, "x", None, &[("a", "1"), ("b", "2"), ("a", "3")]);
    assert_eq!(p.qualifier("a"), Some("1"));
    assert_eq!(p.qualifier("b"), Some("2"));
    assert_eq!(p.qualifier("c"), None);
    assert!(p.has_qualifier("b"));
    assert!(!p.has_qualifier("B"));
    assert_eq!(p.find_qualifier("b"), Some(1));
}
