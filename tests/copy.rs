use rash_copy::error::ErrorKind;
use rash_copy::mode::{normalize_mode, parse_octal, read_only};
use rash_copy::params::{params_from_values, parse_params};
use rash_copy::reconcile::{
    plan_reconcile, reconcile_in_memory, same_bytes, Action, MemoryFile, ModuleResult, Params,
};
use rash_copy::yaml::YamlNode;
use yaml_rust::YamlLoader;

fn load(text: &str) -> yaml_rust::Yaml {
    YamlLoader::load_from_str(text).unwrap().first().unwrap().clone()
}

fn file(content: &str, mode: u32) -> MemoryFile {
    MemoryFile { content: content.as_bytes().to_vec(), mode }
}

#[test]
fn test_parse_octal() {
    assert_eq!(parse_octal("644").unwrap(), 0o644);
    assert_eq!(parse_octal("0644").unwrap(), 0o644);
    assert_eq!(parse_octal("777").unwrap(), 0o777);
    assert_eq!(parse_octal("0444").unwrap(), 0o444);
    assert_eq!(parse_octal("600").unwrap(), 0o600);
    assert_eq!(parse_octal("0600").unwrap(), 0o600);
}

#[test]
fn test_parse_params() {
    let yaml = load(
        r#"
        content: "boo"
        dest: "/tmp/buu.txt"
        mode: "0600"
        "#,
    );
    let params = parse_params(yaml).unwrap();
    assert_eq!(
        params,
        Params {
            content: "boo".to_string(),
            dest: "/tmp/buu.txt".to_string(),
            mode: 0o600,
        }
    );
}

#[test]
fn test_parse_params_mode_int() {
    let yaml = load(
        r#"
        content: "boo"
        dest: "/tmp/buu.txt"
        mode: 0600
        "#,
    );
    let error = parse_params(yaml).unwrap_err();
    assert_eq!(error.kind(), ErrorKind::InvalidFormat);
}

#[test]
fn test_parse_params_no_mode() {
    let yaml = load(
        r#"
        content: "boo"
        dest: "/tmp/buu.txt"
        "#,
    );
    let params = parse_params(yaml).unwrap();
    assert_eq!(
        params,
        Params {
            content: "boo".to_string(),
            dest: "/tmp/buu.txt".to_string(),
            mode: 0o644,
        }
    );
}

#[test]
fn test_verify_file_no_change() {
    let mut f = file("test\n", 0o100644);
    let output = reconcile_in_memory(
        &Params { content: "test\n".to_string(), dest: "no_change.txt".to_string(), mode: 0o644 },
        &mut f,
    );
    assert_eq!(output, ModuleResult { changed: false, output: Some("no_change.txt".to_string()) });
    assert_eq!(f, file("test\n", 0o100644));
}

#[test]
fn test_verify_file_change() {
    let mut f = file("test\n", 0o100644);
    let output = reconcile_in_memory(
        &Params { content: "fu".to_string(), dest: "change.txt".to_string(), mode: 0o400 },
        &mut f,
    );
    assert_eq!(output, ModuleResult { changed: true, output: Some("change.txt".to_string()) });
    assert_eq!(f.content, b"fu".to_vec());
    assert_eq!(format!("{:o}", f.mode & 0o777), format!("{:o}", 0o400));
}

#[test]
fn test_verify_file_create() {
    let mut f = file("", 0o100644);
    let output = reconcile_in_memory(
        &Params { content: "zoo".to_string(), dest: "create.txt".to_string(), mode: 0o400 },
        &mut f,
    );
    assert_eq!(output, ModuleResult { changed: true, output: Some("create.txt".to_string()) });
    assert_eq!(f.content, b"zoo".to_vec());
    assert_eq!(format!("{:o}", f.mode & 0o777), format!("{:o}", 0o400));
}

#[test]
fn test_verify_file_read_only() {
    let mut f = file("read_only\n", 0o100400);
    let output = reconcile_in_memory(
        &Params { content: "zoo".to_string(), dest: "read_only.txt".to_string(), mode: 0o600 },
        &mut f,
    );
    assert_eq!(output, ModuleResult { changed: true, output: Some("read_only.txt".to_string()) });
    assert_eq!(f.content, b"zoo".to_vec());
    assert_eq!(format!("{:o}", f.mode & 0o777), format!("{:o}", 0o600));
}

#[test]
fn test_verify_file_read_only_no_change_permissions() {
    let mut f = file("read_only\n", 0o100400);
    let output = reconcile_in_memory(
        &Params { content: "zoo".to_string(), dest: "read_only.txt".to_string(), mode: 0o400 },
        &mut f,
    );
    assert_eq!(output, ModuleResult { changed: true, output: Some("read_only.txt".to_string()) });
    assert_eq!(f.content, b"zoo".to_vec());
    assert_eq!(format!("{:o}", f.mode & 0o777), format!("{:o}", 0o400));
}

#[test]
fn parse_octal_rejects_other_lengths() {
    for s in ["", "6", "64", "06444", "0000644"] {
        let e = parse_octal(s).unwrap_err();
        assert_eq!(e.kind, ErrorKind::InvalidFormat);
        assert_eq!(e.message, s);
    }
}

#[test]
fn parse_octal_rejects_non_octal_digits() {
    for s in ["648", "0x44", "+44", "-44", "x644", "abc", "9644", "é44", " 44"] {
        let e = parse_octal(s).unwrap_err();
        assert_eq!(e.kind, ErrorKind::InvalidFormat);
        assert_eq!(e.message, s);
    }
}

#[test]
fn parse_octal_leading_digit_is_dropped() {
    assert_eq!(parse_octal("7755").unwrap(), 0o755);
    assert_eq!(parse_octal("1777").unwrap(), 0o777);
    assert_eq!(parse_octal("000").unwrap(), 0);
    assert_eq!(parse_octal("0000").unwrap(), 0);
}

#[test]
fn normalize_strips_file_type_bits() {
    assert_eq!(normalize_mode(0o100644), 0o644);
    assert_eq!(normalize_mode(0o104755), 0o4755);
    assert_eq!(normalize_mode(0o600), 0o600);
}

#[test]
fn read_only_looks_at_owner_write_bit() {
    assert!(read_only(0o100400));
    assert!(read_only(0o444));
    assert!(read_only(0o020));
    assert!(!read_only(0o100644));
    assert!(!read_only(0o200));
}

#[test]
fn same_bytes_compares_exactly() {
    assert!(same_bytes(b"abc", b"abc"));
    assert!(same_bytes(b"", b""));
    assert!(!same_bytes(b"abc", b"abd"));
    assert!(!same_bytes(b"abc", b"ab"));
}

#[test]
fn plan_no_drift_is_empty() {
    let p = plan_reconcile(b"x", 0o644, b"x", 0o100644);
    assert!(!p.changed);
    assert!(p.actions.is_empty());
}

#[test]
fn plan_content_only_is_one_write() {
    let p = plan_reconcile(b"new", 0o644, b"old", 0o100644);
    assert!(p.changed);
    assert_eq!(p.actions, vec![Action::WriteContent]);
}

#[test]
fn plan_mode_only_is_one_set_mode() {
    let p = plan_reconcile(b"same", 0o600, b"same", 0o100644);
    assert!(p.changed);
    assert_eq!(p.actions, vec![Action::SetMode(0o600)]);
}

#[test]
fn plan_read_only_relaxes_and_restores() {
    let p = plan_reconcile(b"zoo", 0o400, b"read_only\n", 0o100400);
    assert!(p.changed);
    assert_eq!(
        p.actions,
        vec![Action::SetMode(0o100600), Action::WriteContent, Action::SetMode(0o100400)]
    );
}

#[test]
fn plan_read_only_with_mode_change() {
    let p = plan_reconcile(b"zoo", 0o600, b"read_only\n", 0o100400);
    assert_eq!(
        p.actions,
        vec![
            Action::SetMode(0o100600),
            Action::WriteContent,
            Action::SetMode(0o100400),
            Action::SetMode(0o600),
        ]
    );
}

#[test]
fn second_run_reports_no_change() {
    let params = Params { content: "hello".to_string(), dest: "f".to_string(), mode: 0o640 };
    let mut f = file("bye bye\n", 0o100400);
    let first = reconcile_in_memory(&params, &mut f);
    assert!(first.changed);
    let after_first = f.clone();
    let second = reconcile_in_memory(&params, &mut f);
    assert!(!second.changed);
    assert_eq!(second.output, Some("f".to_string()));
    assert_eq!(f, after_first);
    assert_eq!(f.content, b"hello".to_vec());
    assert_eq!(f.mode & 0o7777, 0o640);
}

#[test]
fn mode_only_drift_keeps_bytes() {
    let params = Params { content: "same".to_string(), dest: "f".to_string(), mode: 0o755 };
    let mut f = file("same", 0o100644);
    let r = reconcile_in_memory(&params, &mut f);
    assert!(r.changed);
    assert_eq!(f.content, b"same".to_vec());
    assert_eq!(f.mode, 0o100755);
}

#[test]
fn shorter_content_truncates() {
    let params = Params { content: "ab".to_string(), dest: "f".to_string(), mode: 0o644 };
    let mut f = file("abcdefgh", 0o100644);
    let r = reconcile_in_memory(&params, &mut f);
    assert!(r.changed);
    assert_eq!(f.content.len(), 2);
    assert_eq!(f.content, b"ab".to_vec());
}

#[test]
fn longer_content_extends() {
    let params = Params { content: "abcdef".to_string(), dest: "f".to_string(), mode: 0o644 };
    let mut f = file("xy", 0o100644);
    reconcile_in_memory(&params, &mut f);
    assert_eq!(f.content, b"abcdef".to_vec());
}

#[test]
fn empty_created_file_matching_desired_is_unchanged() {
    let params = Params { content: String::new(), dest: "f".to_string(), mode: 0o644 };
    let mut f = file("", 0o100644);
    let r = reconcile_in_memory(&params, &mut f);
    assert!(!r.changed);
}

#[test]
fn multibyte_content_is_written_as_utf8() {
    let params = Params { content: "héllo".to_string(), dest: "f".to_string(), mode: 0o644 };
    let mut f = file("", 0o100644);
    assert!(reconcile_in_memory(&params, &mut f).changed);
    assert_eq!(f.content, "héllo".as_bytes().to_vec());
}

#[test]
fn missing_required_params_fail() {
    let e = parse_params(load("dest: \"/tmp/x\"\n")).unwrap_err();
    assert_eq!(e.kind, ErrorKind::InvalidFormat);
    let e = parse_params(load("content: \"x\"\n")).unwrap_err();
    assert_eq!(e.kind, ErrorKind::InvalidFormat);
    let e = parse_params(load("- a\n- b\n")).unwrap_err();
    assert_eq!(e.kind, ErrorKind::InvalidFormat);
    assert_eq!(e.message, "content");
}

#[test]
fn non_string_params_fail() {
    let e = parse_params(load("content: 3\ndest: \"/tmp/x\"\n")).unwrap_err();
    assert_eq!(e.kind, ErrorKind::InvalidFormat);
    let e = parse_params(load("content: \"x\"\ndest: \"/tmp/x\"\nmode: \"0x44\"\n")).unwrap_err();
    assert_eq!(e.kind, ErrorKind::InvalidFormat);
    assert_eq!(e.message, "0x44");
}

#[test]
fn params_from_values_builds_desired_state() {
    let p = params_from_values(
        YamlNode::Text("c".to_string()),
        YamlNode::Text("/d".to_string()),
        YamlNode::Text("755".to_string()),
    )
    .unwrap();
    assert_eq!(p, Params { content: "c".to_string(), dest: "/d".to_string(), mode: 0o755 });
    let p = params_from_values(
        YamlNode::Text("c".to_string()),
        YamlNode::Text("/d".to_string()),
        YamlNode::BadValue,
    )
    .unwrap();
    assert_eq!(p.mode, 0o644);
    let e = params_from_values(
        YamlNode::Text("c".to_string()),
        YamlNode::BadValue,
        YamlNode::BadValue,
    )
    .unwrap_err();
    assert_eq!(e.kind, ErrorKind::InvalidFormat);
    assert_eq!(e.message, "dest");
    let e = params_from_values(
        YamlNode::Text("c".to_string()),
        YamlNode::Text("/d".to_string()),
        YamlNode::Integer(600),
    )
    .unwrap_err();
    assert_eq!(e.kind, ErrorKind::InvalidFormat);
    assert_eq!(e.message, "mode");
    let e = params_from_values(YamlNode::Null, YamlNode::Text("/d".to_string()), YamlNode::BadValue)
        .unwrap_err();
    assert_eq!(e.message, "content");
}

#[test]
fn null_mode_is_refused() {
    let e = parse_params(load("content: \"x\"\ndest: \"/tmp/x\"\nmode: ~\n")).unwrap_err();
    assert_eq!(e.kind, ErrorKind::InvalidFormat);
    assert_eq!(e.message, "mode");
}
