use mailreply::addr::Identity;
use mailreply::recipients::build_recipient_set;

fn id(name: Option<&str>, addr: &str) -> Identity {
    Identity { name: name.map(|n| n.to_string()), addr: addr.to_string() }
}

fn addrs(v: &[Identity]) -> Vec<String> {
    v.iter().map(|i| i.addr.clone()).collect()
}

#[test]
fn author_never_kept_even_when_listed() {
    let author = id(Some("A"), "a@x.com");
    let selfid = id(Some("U"), "u@x.com");
    let to = Some(vec![id(Some("A"), "a@x.com"), id(Some("B"), "b@x.com")]);
    let cc = Some(vec![id(Some("A"), "a@x.com")]);
    let r = build_recipient_set(&selfid, &author, &to, &cc);
    assert_eq!(addrs(&r), vec!["b@x.com".to_string(), "u@x.com".to_string()]);
}

#[test]
fn duplicates_removed_case_insensitively() {
    let author = id(Some("A"), "a@x.com");
    let selfid = id(Some("U"), "u@x.com");
    let to = Some(vec![
        id(Some("B"), "b@x.com"),
        id(Some("b"), "B@X.COM"),
        id(Some("U"), "U@X.COM"),
    ]);
    let r = build_recipient_set(&selfid, &author, &to, &None);
    assert_eq!(addrs(&r), vec!["b@x.com".to_string(), "u@x.com".to_string()]);
}

#[test]
fn order_is_canonical_not_arrival() {
    let author = id(Some("A"), "a@x.com");
    let selfid = id(Some("U"), "u@x.com");
    let to = Some(vec![id(Some("Z"), "z@x.com"), id(Some("C"), "c@x.com")]);
    let cc = Some(vec![id(Some("B"), "b@x.com")]);
    let r1 = build_recipient_set(&selfid, &author, &to, &cc);
    let to2 = Some(vec![id(Some("B"), "b@x.com"), id(Some("Z"), "z@x.com")]);
    let cc2 = Some(vec![id(Some("C"), "c@x.com")]);
    let r2 = build_recipient_set(&selfid, &author, &to2, &cc2);
    let expected = vec![
        "b@x.com".to_string(),
        "c@x.com".to_string(),
        "u@x.com".to_string(),
        "z@x.com".to_string(),
    ];
    assert_eq!(addrs(&r1), expected);
    assert_eq!(addrs(&r2), expected);
}

#[test]
fn one_entry_per_address_whatever_the_names() {
    let author = id(Some("A"), "a@x.com");
    let selfid = id(Some("U"), "u@x.com");
    let to = Some(vec![id(Some("Zed"), "b@x.com"), id(Some("Ann"), "b@x.com"), id(None, "b@x.com")]);
    let r = build_recipient_set(&selfid, &author, &to, &None);
    assert_eq!(r.len(), 2);
    assert_eq!(r[0].addr, "b@x.com");
    assert_eq!(r[0].name, None);
    assert_eq!(r[1].addr, "u@x.com");
}

#[test]
fn author_address_excluded_under_any_name() {
    let author = id(Some("A"), "a@x.com");
    let selfid = id(Some("U"), "u@x.com");
    let to = Some(vec![id(Some("Alias"), "a@x.com"), id(Some("B"), "b@x.com")]);
    let cc = Some(vec![id(None, "A@X.COM")]);
    let r = build_recipient_set(&selfid, &author, &to, &cc);
    assert_eq!(addrs(&r), vec!["b@x.com".to_string(), "u@x.com".to_string()]);
}

#[test]
fn replying_to_own_message_leaves_no_cc() {
    let me = id(Some("U"), "u@x.com");
    let r = build_recipient_set(&me, &me, &None, &None);
    assert!(r.is_empty());
}

#[test]
fn absent_lists_leave_only_operator() {
    let author = id(Some("A"), "a@x.com");
    let selfid = id(Some("U"), "u@x.com");
    let r = build_recipient_set(&selfid, &author, &None, &None);
    assert_eq!(addrs(&r), vec!["u@x.com".to_string()]);
}
