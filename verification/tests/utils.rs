use bigneon::utils::cache::is_cache_value_fresh;
use bigneon::utils::cache::is_key_outdated;
use bigneon::utils::communication::send_async;
use bigneon::utils::communication::CommAddress;
use bigneon::utils::communication::Communication;
use bigneon::utils::communication::CommunicationType;
use bigneon::utils::communication::Delivery;
use bigneon::utils::communication::Environment;

fn message(comm_type: CommunicationType) -> Communication {
    Communication {
        comm_type,
        title: "Your tickets".to_string(),
        body: Some("See you there".to_string()),
        source: Some(CommAddress { addresses: vec!["box@example.com".to_string(), "other@example.com".to_string()] }),
        destinations: CommAddress { addresses: vec!["a@example.com".to_string(), "b@example.com".to_string()] },
        template_id: Some("d-1".to_string()),
        template_data: Some(vec![vec![("name".to_string(), "A".to_string())]]),
        categories: Some(vec!["tickets".to_string()]),
        extra_data: None,
    }
}

fn to() -> Vec<String> {
    vec!["a@example.com".to_string(), "b@example.com".to_string()]
}

#[test]
fn a_key_is_outdated_once_more_than_the_lapse_has_passed() {
    assert!(!is_key_outdated(10_000, 9_000, 1_000));
    assert!(is_key_outdated(10_001, 9_000, 1_000));
    assert!(!is_key_outdated(9_000, 10_000, 0));
    assert!(is_key_outdated(i64::MAX, i64::MIN, i64::MAX));
    assert!(!is_key_outdated(i64::MIN, i64::MAX, i64::MIN));
}

#[test]
fn a_cached_value_is_fresh_while_its_moment_is_known_and_recent() {
    assert!(is_cache_value_fresh(10_000, Some(9_000), 1_000));
    assert!(!is_cache_value_fresh(10_001, Some(9_000), 1_000));
    assert!(!is_cache_value_fresh(10_000, None, 1_000));
}

#[test]
fn nothing_is_sent_while_testing_or_while_messages_are_blocked() {
    assert_eq!(send_async(message(CommunicationType::Email), Environment::Test, false, None), Delivery::Disabled);
    assert_eq!(send_async(message(CommunicationType::Sms), Environment::Test, true, None), Delivery::Disabled);
    assert_eq!(
        send_async(message(CommunicationType::Push), Environment::Production, true, None),
        Delivery::Blocked(message(CommunicationType::Push))
    );
}

#[test]
fn a_message_goes_out_by_its_channel() {
    assert_eq!(
        send_async(message(CommunicationType::Email), Environment::Production, false, None),
        Delivery::Email {
            source: "box@example.com".to_string(),
            destinations: to(),
            title: "Your tickets".to_string(),
            body: Some("See you there".to_string()),
            categories: Some(vec!["tickets".to_string()]),
            extra_data: None,
        }
    );
    assert_eq!(
        send_async(message(CommunicationType::EmailTemplate), Environment::Staging, false, None),
        Delivery::EmailTemplate {
            source: "box@example.com".to_string(),
            destinations: to(),
            template_id: "d-1".to_string(),
            template_data: vec![vec![("name".to_string(), "A".to_string())]],
            categories: Some(vec!["tickets".to_string()]),
            extra_data: None,
        }
    );
    assert_eq!(
        send_async(message(CommunicationType::Sms), Environment::Development, false, None),
        Delivery::Sms { source: "box@example.com".to_string(), destinations: to(), body: "See you there".to_string() }
    );
    assert_eq!(
        send_async(message(CommunicationType::Webhook), Environment::Production, false, Some(5)),
        Delivery::Webhook { destinations: to(), body: "See you there".to_string(), main_table_id: Some(5) }
    );
}

#[test]
fn a_message_without_a_body_is_sent_with_its_title() {
    let mut push = message(CommunicationType::Push);
    push.body = None;
    push.source = None;
    assert!(push.is_deliverable());
    assert_eq!(
        send_async(push, Environment::Production, false, None),
        Delivery::Push { destinations: to(), body: "Your tickets".to_string() }
    );
}

#[test]
fn a_message_is_deliverable_when_it_has_what_its_channel_needs() {
    let mut mail = message(CommunicationType::Email);
    assert!(mail.is_deliverable());
    mail.source = Some(CommAddress { addresses: vec![] });
    assert!(!mail.is_deliverable());
    mail.source = None;
    assert!(!mail.is_deliverable());
    let mut template = message(CommunicationType::EmailTemplate);
    template.template_id = None;
    assert!(!template.is_deliverable());
    let mut data = message(CommunicationType::EmailTemplate);
    data.template_data = None;
    assert!(!data.is_deliverable());
    let mut sms = message(CommunicationType::Sms);
    sms.source = None;
    assert!(!sms.is_deliverable());
    let mut hook = message(CommunicationType::Webhook);
    hook.source = None;
    hook.template_id = None;
    assert!(hook.is_deliverable());
}
