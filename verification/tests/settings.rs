use kaito::message::{
    content_file_name, content_form, Attachment, ContentForm, MessageContent, MessageEmbed,
    MessageSettings, ToMessageContent,
};
use kaito::modules::shell::ShellModule;
use kaito::modules::ModuleKind;
use kaito::services::{ChannelId, ServerId};
use kaito::settings::{
    first_source, resolve_value, setting_key, stored_value, SettingBoolParameters, SettingContext,
    SettingError, SettingFlags, SettingSource, SettingStringParameters, SettingType, SettingValue,
    SERVER_OVERRIDE,
};

fn read_bool(s: &str) -> Option<bool> {
    <bool as SettingValue>::set_value(s, &SettingBoolParameters {}).ok()
}

#[test]
fn reading_on_and_off() {
    assert_eq!(read_bool("true"), Some(true));
    assert_eq!(read_bool("false"), Some(false));
    assert_eq!(read_bool("  true\n"), Some(true));
    assert_eq!(read_bool("1"), Some(true));
    assert_eq!(read_bool("0"), Some(false));
    assert_eq!(read_bool(" 00 "), Some(false));
    assert_eq!(read_bool("+7"), Some(true));
    assert_eq!(read_bool("4294967295"), Some(true));
    assert_eq!(read_bool("4294967296"), None);
    assert_eq!(read_bool("-1"), None);
    assert_eq!(read_bool("True"), None);
    assert_eq!(read_bool("yes"), None);
    assert_eq!(read_bool(""), None);
    assert_eq!(read_bool("t rue"), None);
    assert!(<bool as SettingValue>::is_valid(&true, &SettingBoolParameters {}).is_ok());
}

#[test]
fn unreadable_value() {
    let e = <bool as SettingValue>::set_value(" maybe ", &SettingBoolParameters {}).unwrap_err();
    assert!(matches!(&e, SettingError::UnexpectedInput { expected: SettingType::Bool, input }
        if input == " maybe "));
    assert_eq!(e.message(), "unable to parse \" maybe \" as Bool");
}

#[test]
fn texts_have_a_longest_length() {
    let p = SettingStringParameters { max_len: Some(8) };
    assert_eq!(<String as SettingValue>::set_value("12345678", &p).unwrap(), "12345678");
    let e = <String as SettingValue>::set_value("123456789", &p).unwrap_err();
    assert!(matches!(e, SettingError::ExceededMaxLength { max: 8, length: 9 }));
    assert_eq!(e.message(), "len 9 exceeded max length 8");
    // the length is counted in bytes
    assert!(<String as SettingValue>::set_value("éééé", &p).is_ok());
    assert!(<String as SettingValue>::set_value("ééééé", &p).is_err());
    assert!(<String as SettingValue>::is_valid(&"x".repeat(9), &p).is_err());
    let free = SettingStringParameters::default();
    assert_eq!(free.max_len, None);
    assert!(<String as SettingValue>::set_value(&"x".repeat(1000), &free).is_ok());
}

#[test]
fn which_value_counts() {
    assert_eq!(first_source(SettingFlags::empty()), SettingSource::Channel);
    assert_eq!(first_source(SettingFlags { bits: SERVER_OVERRIDE }), SettingSource::Server);
    assert_eq!(first_source(SettingFlags { bits: 3 }), SettingSource::Server);
    assert_eq!(first_source(SettingFlags { bits: 2 }), SettingSource::Channel);
    assert_eq!(resolve_value(Some(1), Some(2), 3), 1);
    assert_eq!(resolve_value(None, Some(2), 3), 2);
    assert_eq!(resolve_value::<u8>(None, None, 3), 3);
    assert!(SettingFlags { bits: 1 }.contains(SettingFlags { bits: 1 }));
    assert!(!SettingFlags::empty().contains(SettingFlags { bits: 1 }));
}

#[test]
fn a_stored_text_that_stands_for_nothing_counts_as_none() {
    let p = SettingBoolParameters {};
    assert_eq!(stored_value::<bool>(Some("true"), &p), Some(true));
    assert_eq!(stored_value::<bool>(Some("nope"), &p), None);
    assert_eq!(stored_value::<bool>(None, &p), None);
    let p = SettingStringParameters { max_len: Some(1) };
    assert_eq!(stored_value::<String>(Some("ab"), &p), None);
    assert_eq!(stored_value::<String>(Some("a"), &p), Some("a".to_string()));
}

#[test]
fn keys_and_contexts() {
    assert_eq!(setting_key("lua", "prefix"), "lua/prefix");
    assert_eq!(setting_key("", ""), "/");
    let c = SettingContext::Channel(ChannelId::Discord(1));
    let s = SettingContext::Server(ServerId::Discord(1));
    assert!(c != s);
    assert!(matches!(ModuleKind::Lua, ModuleKind::Lua));
}

#[test]
fn how_a_text_goes_out() {
    assert_eq!(content_form(""), ContentForm::Absent);
    assert_eq!(content_form("hi"), ContentForm::Inline);
    assert_eq!(content_form(&"x".repeat(2000)), ContentForm::Inline);
    assert_eq!(content_form(&"x".repeat(2001)), ContentForm::File);
    assert_eq!(content_form(&"é".repeat(2000)), ContentForm::Inline);
    assert_eq!(content_form(&"\n".repeat(20)), ContentForm::Inline);
    assert_eq!(content_form(&"\n".repeat(21)), ContentForm::File);
    assert_eq!(content_form(&"a\n".repeat(21)), ContentForm::File);
    assert_eq!(content_file_name(), "message.txt");
}

#[test]
fn what_can_be_the_text_of_a_message() {
    assert!(matches!("hi".to_message_content(), MessageContent::Str("hi")));
    assert!(matches!(String::from("hi").to_message_content(), MessageContent::String(s) if s == "hi"));
    let s = MessageSettings::default();
    assert!(s.embed.is_none() && s.reply.is_none() && s.reply_user.is_none());
    assert!(s.attachments.is_empty());
    let e = MessageEmbed::default();
    assert!(e.fields.is_empty() && e.title.is_none() && e.timestamp.is_none());
    let a = Attachment { filename: "a.png".into(), url: "u".into(), size: Some(1), dimensions: None };
    assert_eq!(a.filename, "a.png");
}

#[test]
fn shell_commands() {
    let m = ShellModule::new();
    assert!(m.enabled());
    assert_eq!(m.prefix, "$");
    assert_eq!(m.message("$ls -l"), Some("ls -l".to_string()));
    assert_eq!(m.message("ls"), None);
    assert_eq!(m.message("$"), Some(String::new()));
}
