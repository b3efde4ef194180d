use signal_pager::pager::{GeneralName, PageDenied, PagerService, PagerServiceArgs};

fn service() -> PagerService {
    PagerService::new(PagerServiceArgs {
        allow_spiffe: vec![
            "spiffe://example.org/alertmanager".to_string(),
            "spiffe://example.org/oncall".to_string(),
        ],
    })
}

#[test]
fn admits_listed_uri() {
    let r = service().authorize(Some(vec![GeneralName::Uri("spiffe://example.org/oncall".to_string())]));
    assert_eq!(r, Ok("spiffe://example.org/oncall".to_string()));
}

#[test]
fn refuses_unlisted_uri() {
    let r = service().authorize(Some(vec![GeneralName::Uri("spiffe://example.org/other".to_string())]));
    assert_eq!(r, Err(PageDenied::NotInAcl));
}

#[test]
fn refuses_without_single_uri() {
    let s = service();
    assert_eq!(s.authorize(None), Err(PageDenied::NoUriSan));
    assert_eq!(s.authorize(Some(Vec::new())), Err(PageDenied::NoUriSan));
    assert_eq!(s.authorize(Some(vec![GeneralName::Other])), Err(PageDenied::NoUriSan));
    assert_eq!(
        s.authorize(Some(vec![
            GeneralName::Uri("spiffe://example.org/oncall".to_string()),
            GeneralName::Uri("spiffe://example.org/alertmanager".to_string()),
        ])),
        Err(PageDenied::NoUriSan)
    );
}

#[test]
fn admits_checks_membership() {
    let s = service();
    assert!(s.admits(&"spiffe://example.org/alertmanager".to_string()));
    assert!(!s.admits(&"spiffe://example.org/alert".to_string()));
}
