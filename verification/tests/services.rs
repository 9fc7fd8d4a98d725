use kaito::services::{
    discord_user_name, is_from_bot, parse_service_id, ChannelId, IdErrorKind, MessageId, Server,
    ServerId, ServiceFeatures, ServiceKind, ServiceServer, ServiceUser, User, UserId,
    FEATURE_ALL, FEATURE_EDIT, FEATURE_EMBED, FEATURE_MARKDOWN, FEATURE_REACT, FEATURE_VOICE,
};

#[test]
fn identifiers_as_text() {
    assert_eq!(MessageId::Discord(42).to_str(), "discord:42");
    assert_eq!(MessageId::Discord(42).to_short_str(), "d:42");
    assert_eq!(ChannelId::Discord(0).to_str(), "discord:0");
    assert_eq!(ServerId::Discord(u64::MAX).to_short_str(), "d:18446744073709551615");
    assert_eq!(UserId::Discord(7).to_short_str(), "d:7");
    assert_eq!(UserId::Discord(7).service_kind(), ServiceKind::Discord);
}

#[test]
fn identifiers_from_text() {
    assert_eq!(ChannelId::from_str("discord:42").unwrap(), ChannelId::Discord(42));
    assert_eq!(ChannelId::from_str("d:42").unwrap(), ChannelId::Discord(42));
    assert_eq!(MessageId::from_str("d:0").unwrap(), MessageId::Discord(0));
    assert_eq!(ServerId::from_str("d:+5").unwrap(), ServerId::Discord(5));
    assert_eq!(
        UserId::from_str("d:18446744073709551615").unwrap(),
        UserId::Discord(u64::MAX)
    );
}

#[test]
fn identifiers_round_trip() {
    for n in [0u64, 1, 10, 123456789012345678, u64::MAX] {
        let id = MessageId::Discord(n);
        assert_eq!(MessageId::from_str(&id.to_str()).unwrap(), id);
        assert_eq!(MessageId::from_str(&id.to_short_str()).unwrap(), id);
    }
}

#[test]
fn what_is_no_identifier() {
    let e = ChannelId::from_str("42").unwrap_err();
    assert_eq!(e.kind, IdErrorKind::SeparatorMissing);
    assert_eq!(e.message(), "id seperator missing: \"42\"");
    let e = ChannelId::from_str("slack:42").unwrap_err();
    assert_eq!(e.kind, IdErrorKind::UnknownService);
    assert_eq!(e.message(), "unknown service \"slack\"");
    let e = ChannelId::from_str("d:4x").unwrap_err();
    assert_eq!(e.kind, IdErrorKind::InvalidNumber);
    assert_eq!(e.text, "4x");
    assert_eq!(ChannelId::from_str("d:").unwrap_err().kind, IdErrorKind::InvalidNumber);
    assert_eq!(
        ChannelId::from_str("d:18446744073709551616").unwrap_err().kind,
        IdErrorKind::InvalidNumber
    );
    // the service stands in front of the first colon
    assert_eq!(ChannelId::from_str("d:1:2").unwrap_err().kind, IdErrorKind::InvalidNumber);
    assert_eq!(ChannelId::from_str(":1").unwrap_err().kind, IdErrorKind::UnknownService);
    assert!(parse_service_id("D:1").is_err());
}

#[test]
fn service_names() {
    assert_eq!(ServiceKind::from_str("discord"), Some(ServiceKind::Discord));
    assert_eq!(ServiceKind::from_str("d"), None);
    assert_eq!(ServiceKind::Discord.id(), "discord");
    assert_eq!(ServiceKind::Discord.id_short(), "d");
}

#[test]
fn features() {
    assert_eq!(
        [FEATURE_EDIT, FEATURE_EMBED, FEATURE_REACT, FEATURE_VOICE, FEATURE_MARKDOWN],
        [1, 2, 4, 8, 16]
    );
    let d = ServiceKind::Discord;
    for bits in 0..=FEATURE_ALL {
        assert!(d.supports_feature(ServiceFeatures { bits }));
    }
    assert!(!d.supports_feature(ServiceFeatures { bits: 32 }));
    assert_eq!(ServiceFeatures::from_bits_truncate(0xff).bits(), 31);
    assert_eq!(ServiceFeatures::from_bits_truncate(34).bits(), 2);
    assert_eq!(ServiceFeatures::empty().bits(), 0);
    let some = ServiceFeatures { bits: 5 };
    assert!(some.contains(ServiceFeatures { bits: 4 }));
    assert!(some.contains(ServiceFeatures { bits: 0 }));
    assert!(!some.contains(ServiceFeatures { bits: 6 }));
}

#[test]
fn users_and_servers() {
    let u = ServiceUser {
        id: UserId::Discord(9),
        name: "ann#1".into(),
        nick: "ann".into(),
        avatar: Some("http://a/".into()),
        bot: None,
    };
    assert_eq!(u.id(), UserId::Discord(9));
    assert_eq!(u.name(), "ann#1");
    assert_eq!(u.nick(), "ann");
    assert_eq!(u.avatar(), Some("http://a/"));
    assert_eq!(u.bot(), None);
    assert_eq!(u.service(), ServiceKind::Discord);
    let s = ServiceServer { id: ServerId::Discord(3), name: "home".into() };
    assert_eq!(s.id(), ServerId::Discord(3));
    assert_eq!(s.name(), "home");
    assert_eq!(s.service(), ServiceKind::Discord);
    assert_eq!(discord_user_name("ann", 42), "ann#42");
}

#[test]
fn bots_are_passed_over() {
    let me = UserId::Discord(1);
    assert!(is_from_bot(me, me, Some(false)));
    assert!(is_from_bot(UserId::Discord(2), me, Some(true)));
    assert!(!is_from_bot(UserId::Discord(2), me, Some(false)));
    assert!(!is_from_bot(UserId::Discord(2), me, None));
}
