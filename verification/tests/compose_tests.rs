use mailreply::addr::Identity;
use mailreply::compose::compose_body;
use mailreply::date::DateStamp;
use mailreply::Flags;

fn stamp() -> DateStamp {
    DateStamp {
        year: 2021,
        month: 12,
        day: 25,
        hour: 9,
        minute: 30,
        second: 0,
        tz_before_gmt: false,
        tz_hour: 0,
        tz_minute: 0,
    }
}

fn operator() -> Identity {
    Identity { name: Some("U Ser".to_string()), addr: "u@x.com".to_string() }
}

fn alice() -> Identity {
    Identity { name: Some("Alice".to_string()), addr: "a@x.com".to_string() }
}

fn no_flags() -> Flags {
    Flags { acked: false, reviewed: false, tested: false }
}

fn lines(v: &[&str]) -> Vec<String> {
    v.iter().map(|s| s.to_string()).collect()
}

#[test]
fn short_body_quoted_whole() {
    let body = compose_body(&operator(), &alice(), &stamp(), &lines(&["l1", "l2"]), no_flags());
    assert_eq!(
        body,
        "On Sat, 25 Dec 2021 09:30:00 +0000, Alice wrote:\n> l1\n> l2\n\n\nThanks!\nU\n"
    );
}

#[test]
fn five_line_body_not_truncated() {
    let body = compose_body(
        &operator(),
        &alice(),
        &stamp(),
        &lines(&["l1", "l2", "l3", "l4", "l5"]),
        no_flags(),
    );
    assert_eq!(
        body,
        "On Sat, 25 Dec 2021 09:30:00 +0000, Alice wrote:\n\
         > l1\n> l2\n> l3\n> l4\n> l5\n\n\nThanks!\nU\n"
    );
}

#[test]
fn long_body_truncated_after_five_lines() {
    let body = compose_body(
        &operator(),
        &alice(),
        &stamp(),
        &lines(&["l1", "l2", "l3", "l4", "l5", "l6", "l7"]),
        no_flags(),
    );
    assert_eq!(
        body,
        "On Sat, 25 Dec 2021 09:30:00 +0000, Alice wrote:\n\
         > l1\n> l2\n> l3\n> l4\n> l5\n> \n> [ ... ]\n\n\nThanks!\nU\n"
    );
}

#[test]
fn marker_stops_quoting_early() {
    let body = compose_body(
        &operator(),
        &alice(),
        &stamp(),
        &lines(&["l1", "---", "l3", "l4", "l5", "l6", "l7"]),
        no_flags(),
    );
    assert_eq!(body, "On Sat, 25 Dec 2021 09:30:00 +0000, Alice wrote:\n> l1\n\n\nThanks!\nU\n");
}

#[test]
fn marker_at_the_budget_stops_without_truncation() {
    let body = compose_body(
        &operator(),
        &alice(),
        &stamp(),
        &lines(&["l1", "l2", "l3", "l4", "l5", "---", "l7"]),
        no_flags(),
    );
    assert_eq!(
        body,
        "On Sat, 25 Dec 2021 09:30:00 +0000, Alice wrote:\n\
         > l1\n> l2\n> l3\n> l4\n> l5\n\n\nThanks!\nU\n"
    );
}

#[test]
fn author_without_name_quoted_by_address() {
    let author = Identity { name: None, addr: "a@x.com".to_string() };
    let body = compose_body(&operator(), &author, &stamp(), &lines(&["hi"]), no_flags());
    assert_eq!(body, "On Sat, 25 Dec 2021 09:30:00 +0000, a@x.com wrote:\n> hi\n\n\nThanks!\nU\n");
}

#[test]
fn all_three_trailers_in_fixed_order() {
    let body = compose_body(
        &operator(),
        &alice(),
        &stamp(),
        &lines(&["hi"]),
        Flags { acked: true, reviewed: true, tested: true },
    );
    assert_eq!(
        body,
        "On Sat, 25 Dec 2021 09:30:00 +0000, Alice wrote:\n> hi\n\n\
         Acked-by: U Ser <u@x.com>\nReviewed-by: U Ser <u@x.com>\nTested-by: U Ser <u@x.com>\n\
         \nThanks!\nU\n"
    );
}

#[test]
fn single_trailer_kinds() {
    let acked = compose_body(
        &operator(),
        &alice(),
        &stamp(),
        &lines(&["hi"]),
        Flags { acked: true, reviewed: false, tested: false },
    );
    assert!(acked.contains("\nAcked-by: U Ser <u@x.com>\n"));
    assert!(!acked.contains("Reviewed-by"));
    assert!(!acked.contains("Tested-by"));
    let tested = compose_body(
        &operator(),
        &alice(),
        &stamp(),
        &lines(&["hi"]),
        Flags { acked: false, reviewed: false, tested: true },
    );
    assert!(!tested.contains("Acked-by"));
    assert!(!tested.contains("Reviewed-by"));
    assert!(tested.contains("\nTested-by: U Ser <u@x.com>\n"));
}

#[test]
fn trailer_count_matches_flags() {
    for acked in [false, true] {
        for reviewed in [false, true] {
            for tested in [false, true] {
                let body = compose_body(
                    &operator(),
                    &alice(),
                    &stamp(),
                    &lines(&["hi"]),
                    Flags { acked, reviewed, tested },
                );
                let expected = usize::from(acked) + usize::from(reviewed) + usize::from(tested);
                let count = body.lines().filter(|l| l.ends_with("-by: U Ser <u@x.com>")).count();
                assert_eq!(count, expected);
            }
        }
    }
}

#[test]
fn operator_without_name_signs_with_address() {
    let op = Identity { name: None, addr: "u@x.com".to_string() };
    let body = compose_body(&op, &alice(), &stamp(), &lines(&["hi"]), no_flags());
    assert!(body.ends_with("\nThanks!\nu@x.com\n"));
}

#[test]
fn empty_body_quotes_nothing() {
    let body = compose_body(&operator(), &alice(), &stamp(), &lines(&[]), no_flags());
    assert_eq!(body, "On Sat, 25 Dec 2021 09:30:00 +0000, Alice wrote:\n\n\nThanks!\nU\n");
}
