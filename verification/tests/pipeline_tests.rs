use mailreply::addr::Identity;
use mailreply::compose_reply;
use mailreply::config::{resolve_identity, resolve_transport, Config, TransportConfig};
use mailreply::errors::{ConfigFault, ParseFault, ReplyError};
use mailreply::inbound::{interpret, split_lines};
use mailreply::outbound::{assemble, render_bytes, OutgoingMessage};
use mailreply::Flags;

fn cfg() -> Config {
    Config {
        user_name: Some("U Ser".to_string()),
        user_email: Some("u@x.com".to_string()),
        sendmail_cmd: None,
        relay: None,
    }
}

fn raw_mail() -> Vec<u8> {
    b"From: A <a@x.com>\r\n\
      To: B <b@x.com>\r\n\
      Cc: C <c@x.com>\r\n\
      Subject: hello\r\n\
      Date: Sat, 25 Dec 2021 09:30:00 +0000\r\n\
      Message-ID: <m1@x.com>\r\n\
      \r\n\
      body line\r\n"
        .to_vec()
}

fn no_flags() -> Flags {
    Flags { acked: false, reviewed: false, tested: false }
}

#[test]
fn scenario_acked_reply() {
    let out = compose_reply(
        &cfg(),
        &raw_mail(),
        Flags { acked: true, reviewed: false, tested: false },
    )
    .unwrap();
    assert_eq!(out.to.addr, "a@x.com");
    assert_eq!(out.to.name, Some("A".to_string()));
    assert_eq!(out.from.addr, "u@x.com");
    let cc: Vec<String> = out.cc.iter().map(|i| i.addr.clone()).collect();
    assert_eq!(cc, vec!["b@x.com".to_string(), "c@x.com".to_string(), "u@x.com".to_string()]);
    assert!(out.body.ends_with("Acked-by: U Ser <u@x.com>\n\nThanks!\nU\n"));
}

#[test]
fn reply_headers_are_derived() {
    let out = compose_reply(&cfg(), &raw_mail(), no_flags()).unwrap();
    assert_eq!(out.subject, "Re: hello");
    assert_eq!(out.in_reply_to, "<m1@x.com>");
    assert_eq!(out.references, "<m1@x.com>");
    assert!(out.body.starts_with("On Sat, 25 Dec 2021 09:30:00 +0000, A wrote:\n> body line\n"));
}

#[test]
fn interpret_reads_all_fields() {
    let msg = interpret(&raw_mail()).unwrap();
    assert_eq!(msg.author.addr, "a@x.com");
    assert_eq!(msg.subject, "hello");
    assert_eq!(msg.message_id, "m1@x.com");
    assert_eq!(msg.date.year, 2021);
    assert_eq!(msg.date.month, 12);
    assert_eq!(msg.date.day, 25);
    let to = msg.to.unwrap();
    assert_eq!(to.len(), 1);
    assert_eq!(to[0].addr, "b@x.com");
    let cc = msg.cc.unwrap();
    assert_eq!(cc[0].addr, "c@x.com");
    let lines: Vec<String> = msg.body_lines;
    assert_eq!(lines, vec!["body line".to_string()]);
}

#[test]
fn missing_subject_is_a_parse_fault() {
    let raw = b"From: A <a@x.com>\r\n\
        Date: Sat, 25 Dec 2021 09:30:00 +0000\r\n\
        Message-ID: <m1@x.com>\r\n\
        \r\n\
        body\r\n";
    let e = interpret(raw).unwrap_err();
    assert_eq!(e, ReplyError::Parse(ParseFault::MissingSubject));
}

#[test]
fn missing_author_is_a_parse_fault() {
    let raw = b"To: B <b@x.com>\r\n\
        Subject: s\r\n\
        Date: Sat, 25 Dec 2021 09:30:00 +0000\r\n\
        Message-ID: <m1@x.com>\r\n\
        \r\n\
        body\r\n";
    let e = interpret(raw).unwrap_err();
    assert_eq!(e, ReplyError::Parse(ParseFault::MissingAuthor));
}

#[test]
fn missing_message_id_is_a_parse_fault() {
    let raw = b"From: A <a@x.com>\r\n\
        Subject: s\r\n\
        Date: Sat, 25 Dec 2021 09:30:00 +0000\r\n\
        \r\n\
        body\r\n";
    let e = interpret(raw).unwrap_err();
    assert_eq!(e, ReplyError::Parse(ParseFault::MissingMessageId));
}

#[test]
fn split_lines_handles_terminators() {
    let l = split_lines("a\r\nb\nc");
    assert_eq!(l, vec!["a".to_string(), "b".to_string(), "c".to_string()]);
    assert_eq!(split_lines(""), Vec::<String>::new());
    assert_eq!(split_lines("a\n"), vec!["a".to_string()]);
    assert_eq!(split_lines("\n\n"), vec!["".to_string(), "".to_string()]);
    assert_eq!(split_lines("a\rb"), vec!["a\rb".to_string()]);
}

#[test]
fn identity_resolution_errors() {
    let mut c = cfg();
    c.user_email = None;
    assert_eq!(
        resolve_identity(&c).unwrap_err(),
        ReplyError::Configuration(ConfigFault::MissingAddress)
    );
    c.user_email = Some("not an address".to_string());
    assert_eq!(
        resolve_identity(&c).unwrap_err(),
        ReplyError::Configuration(ConfigFault::MalformedAddress)
    );
}

#[test]
fn identity_resolution_keeps_configured_values() {
    let me = resolve_identity(&cfg()).unwrap();
    assert_eq!(me.name, Some("U Ser".to_string()));
    assert_eq!(me.addr, "u@x.com");
}

#[test]
fn transport_precedence() {
    let mut c = cfg();
    c.sendmail_cmd = Some("/usr/bin/msmtp".to_string());
    c.relay = Some("smtp.example.org".to_string());
    let t = resolve_transport(&c, false).unwrap();
    assert!(matches!(t, TransportConfig::Command(ref p) if p == "/usr/bin/msmtp"));

    c.sendmail_cmd = None;
    c.relay = Some("/usr/sbin/sendmail".to_string());
    let t = resolve_transport(&c, true).unwrap();
    assert!(matches!(t, TransportConfig::Command(ref p) if p == "/usr/sbin/sendmail"));

    c.relay = Some("smtp.example.org".to_string());
    assert_eq!(resolve_transport(&c, false).unwrap_err(), ReplyError::UnsupportedConfiguration);

    c.relay = None;
    let t = resolve_transport(&c, false).unwrap();
    assert!(matches!(t, TransportConfig::DefaultSendmail));
}

#[test]
fn dry_run_bytes_are_deterministic() {
    let when: u64 = 1_640_424_600;
    let out = compose_reply(&cfg(), &raw_mail(), no_flags()).unwrap();
    let again = compose_reply(&cfg(), &raw_mail(), no_flags()).unwrap();
    let b1 = render_bytes(&out, when).unwrap();
    let b2 = render_bytes(&again, when).unwrap();
    assert_eq!(b1, b2);
    let text = String::from_utf8(b1).unwrap();
    assert!(text.contains("Subject: Re: hello"));
    assert!(text.contains("In-Reply-To: <m1@x.com>"));
    assert!(text.contains("References: <m1@x.com>"));
    assert!(text.contains("To: \"A\" <a@x.com>") || text.contains("To: A <a@x.com>"));
}

#[test]
fn render_rejects_invalid_participant() {
    let when: u64 = 1_640_424_600;
    let out = OutgoingMessage {
        from: Identity { name: None, addr: "not an address".to_string() },
        to: Identity { name: None, addr: "a@x.com".to_string() },
        subject: "s".to_string(),
        in_reply_to: "<m@x>".to_string(),
        references: "<m@x>".to_string(),
        cc: Vec::new(),
        body: "b".to_string(),
    };
    assert_eq!(render_bytes(&out, when).unwrap_err(), ReplyError::Validation);
}

#[test]
fn assemble_pins_every_field() {
    let msg = interpret(&raw_mail()).unwrap();
    let me = resolve_identity(&cfg()).unwrap();
    let out = assemble(&me, &msg, Vec::new(), "draft".to_string());
    assert_eq!(out.from.addr, "u@x.com");
    assert_eq!(out.to.addr, "a@x.com");
    assert_eq!(out.subject, "Re: hello");
    assert_eq!(out.in_reply_to, "<m1@x.com>");
    assert_eq!(out.references, "<m1@x.com>");
    assert!(out.cc.is_empty());
    assert_eq!(out.body, "draft");
}

#[test]
fn error_descriptions_name_the_fault() {
    assert_eq!(ReplyError::Validation.describe(), "malformed participant address");
    assert_eq!(
        ReplyError::UnsupportedConfiguration.describe(),
        "relay delivery over the network is not supported"
    );
}

#[test]
fn empty_input_is_unparsable() {
    let e = interpret(b"").unwrap_err();
    assert_eq!(e, ReplyError::Parse(ParseFault::Unparsable));
}

#[test]
fn missing_date_is_a_parse_fault() {
    let raw = b"From: A <a@x.com>\r\n\
        Subject: s\r\n\
        Message-ID: <m1@x.com>\r\n\
        \r\n\
        body\r\n";
    let e = interpret(raw).unwrap_err();
    assert_eq!(e, ReplyError::Parse(ParseFault::MissingDate));
}

#[test]
fn message_without_text_body_is_a_parse_fault() {
    let raw = b"From: A <a@x.com>\r\n\
        Subject: s\r\n\
        Date: Sat, 25 Dec 2021 09:30:00 +0000\r\n\
        Message-ID: <m1@x.com>\r\n\
        Content-Type: application/octet-stream\r\n\
        \r\n\
        \x00\x01\x02\r\n";
    let e = interpret(raw).unwrap_err();
    assert_eq!(e, ReplyError::Parse(ParseFault::MissingBody));
}
