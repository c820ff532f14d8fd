//! Checksums of package declarations.

use dbt_fusion::deps::package_checksum::{
    core_package_value, core_sha1_hash_package_file, core_sha1_hash_packages,
    fusion_sha1_hash_packages, DbtPackageType,
};
use dbt_fusion::deps::python_json::{python_json, python_json_string};
use dbt_fusion::json::Json;

fn text(s: &str) -> Json {
    Json::Text(s.to_string())
}

fn object(fields: Vec<(&str, Json)>) -> Json {
    Json::Object(
        fields
            .into_iter()
            .map(|(k, v)| (k.to_string(), v))
            .collect(),
    )
}

fn lines(items: &[&str]) -> Vec<String> {
    items.iter().map(|s| s.to_string()).collect()
}

fn utils() -> Json {
    object(vec![
        ("package", text("dbt-labs/dbt_utils")),
        ("version", Json::List(vec![text("1.0"), text("<2")])),
    ])
}

#[test]
fn declarations_are_hashed_in_their_order() {
    let sorted = fusion_sha1_hash_packages(&lines(&["a", "b"]), false);
    assert_eq!(sorted, "fcd127ffa1016069006ad91f3f361248f9bdf272");
    assert_eq!(fusion_sha1_hash_packages(&lines(&["b", "a"]), false), sorted);
    assert_eq!(
        fusion_sha1_hash_packages(&lines(&["b", "a"]), true),
        "87026bc95e30a26f2ed7c788ad7cff3df14d2f17"
    );
}

#[test]
fn json_is_written_as_python_writes_it() {
    assert_eq!(python_json_string("a\"b\\\n\t\u{1}"), r#""a\"b\\\n\t\u0001""#);
    assert_eq!(python_json_string("\u{e9}\u{1f600}"), r#""\u00e9\ud83d\ude00""#);
    let value = object(vec![
        ("b", Json::List(vec![Json::Int(-3), Json::Null, Json::Bool(true)])),
        ("a", object(vec![])),
    ]);
    assert_eq!(python_json(&value), r#"{"a": {}, "b": [-3, null, true]}"#);
    assert_eq!(python_json(&Json::List(vec![])), "[]");
}

#[test]
fn declarations_get_their_defaults() {
    assert_eq!(
        python_json(&core_package_value(&utils(), &utils()).unwrap()),
        r#"{"install_prerelease": false, "package": "dbt-labs/dbt_utils", "unrendered": {"package": "dbt-labs/dbt_utils", "version": ["1.0", "<2"]}, "version": ["1.0", "<2"]}"#
    );
    let unnamed = object(vec![("local", text("../x")), ("name", Json::Null)]);
    assert_eq!(
        python_json(&core_package_value(&unnamed, &unnamed).unwrap()),
        r#"{"local": "../x", "unrendered": {"local": "../x", "name": null}}"#
    );
}

#[test]
fn other_shapes_have_no_checksum() {
    let two = object(vec![("package", text("a/b")), ("git", text("u"))]);
    assert!(core_package_value(&two, &two).is_none());
    let none = object(vec![("version", text("1"))]);
    assert!(core_package_value(&none, &none).is_none());
    let other = object(vec![("local", text("x")), ("revision", text("y"))]);
    assert!(core_package_value(&other, &other).is_none());
    assert!(core_package_value(&utils(), &text("x")).is_none());
    assert!(core_package_value(&utils(), &object(vec![("git", text("u"))])).is_none());

    assert_eq!(
        core_sha1_hash_packages(Some(&vec![utils()]), Some(&vec![two])),
        None
    );
    assert_eq!(core_sha1_hash_packages(Some(&vec![utils()]), None), None);
    assert_eq!(
        core_sha1_hash_packages(Some(&vec![utils()]), Some(&vec![])),
        None
    );
}

#[test]
fn the_rendered_and_the_unrendered_declarations_are_hashed() {
    let given = object(vec![("git", text("{{ env_var('U') }}"))]);
    let made = object(vec![("git", text("https://x/\u{e9}"))]);
    let expected = Some("980029751c645d5e86f7606d3e4e4485373ae64c".to_string());
    assert_eq!(
        core_sha1_hash_packages(
            Some(&vec![utils(), given.copy()]),
            Some(&vec![utils(), made.copy()])
        ),
        expected
    );
    assert_eq!(
        core_sha1_hash_packages(Some(&vec![given, utils()]), Some(&vec![made, utils()])),
        expected
    );
    assert_eq!(
        core_sha1_hash_packages(None, None),
        Some("da39a3ee5e6b4b0d3255bfef95601890afd80709".to_string())
    );
}

#[test]
fn only_packages_yml_is_rendered() {
    let given = vec![object(vec![("git", text("{{ env_var('U') }}"))])];
    let made = vec![object(vec![("git", text("https://x"))])];
    let rendered =
        core_sha1_hash_package_file(DbtPackageType::PackageYml, Some(&given), Some(&made));
    let literal =
        core_sha1_hash_package_file(DbtPackageType::DependenciesYml, Some(&given), Some(&made));
    assert_eq!(rendered, core_sha1_hash_packages(Some(&given), Some(&made)));
    assert_eq!(literal, core_sha1_hash_packages(Some(&given), Some(&given)));
    assert_ne!(rendered, literal);
    assert_eq!(
        core_sha1_hash_package_file(DbtPackageType::DependenciesYml, Some(&given), None),
        literal
    );
    assert_eq!(
        core_sha1_hash_package_file(DbtPackageType::PackageYml, Some(&given), None),
        None
    );
}

#[test]
fn a_written_string_reads_back() {
    assert_eq!(python_json_string("\u{7f}"), r#""\u007f""#);
    assert_eq!(python_json_string("\u{1f600}"), r#""\ud83d\ude00""#);
    for text in ["", "a/b", "\"\\", "\u{8}\u{c}\r\n\t\u{0}\u{1f}", "\u{d7ff}\u{e000}\u{ffff}\u{10000}\u{10ffff}"] {
        let written = python_json_string(text);
        assert!(written.bytes().all(|b| (0x20..=0x7e).contains(&b)));
        assert_eq!(serde_json::from_str::<String>(&written).unwrap(), text);
    }
}
