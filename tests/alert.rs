use signal_pager::alert::AlertInput;

fn pair(k: &str, v: &str) -> (String, String) {
    (k.to_string(), v.to_string())
}

#[test]
fn renders_status_labels_and_annotations() {
    let a = AlertInput {
        status: "firing".to_string(),
        labels: vec![pair("alertname", "DiskFull"), pair("host", "db1")],
        annotations: vec![
            pair("description", "Disk is at 99%"),
            pair("runbook", "ignored"),
            pair("summary", "disk almost full"),
        ],
    };
    assert_eq!(
        a.render(),
        "FIRING\nalertname: DiskFull\nhost: db1\n\ndisk almost full\n\nDisk is at 99%\n"
    );
}

#[test]
fn renders_bare_status() {
    let a = AlertInput { status: "resolved".to_string(), labels: Vec::new(), annotations: Vec::new() };
    assert_eq!(a.render(), "RESOLVED\n");
}

#[test]
fn renders_non_ascii_upper_case() {
    let a = AlertInput {
        status: "straße".to_string(),
        labels: Vec::new(),
        annotations: vec![pair("summary", "s")],
    };
    assert_eq!(a.render(), "STRASSE\n\ns\n");
}
