use korasi_cli::ec2::{EC2Error, GLOBAL_TAG_FILTER, SSH_KEY_NAME, SSH_SECURITY_GROUP};
use korasi_cli::ssh::Endpoint;
use korasi_cli::util::{display_name, ids_to_str, SelectOption, Tag};

fn option(id: &str) -> SelectOption {
    SelectOption {
        name: String::new(),
        instance_id: id.to_string(),
        public_dns_name: None,
        state: None,
        instance_type: None,
    }
}

fn tag(key: &str, value: &str) -> Tag {
    Tag { key: Some(key.to_string()), value: Some(value.to_string()) }
}

#[test]
fn ids_are_separated_by_commas() {
    assert_eq!(ids_to_str(vec![option("i-1"), option("i-2"), option("i-3")]), "i-1,i-2,i-3");
}

#[test]
fn one_id_stands_alone() {
    assert_eq!(ids_to_str(vec![option("i-0abc")]), "i-0abc");
}

#[test]
fn no_ids_give_the_empty_text() {
    assert_eq!(ids_to_str(Vec::new()), "");
}

#[test]
fn name_is_the_value_of_the_name_tag() {
    let tags = vec![tag("application", "hpc-launcher"), tag("Name", "happy-otter"), tag("x", "y")];
    assert_eq!(display_name(&tags), "happy-otter");
}

#[test]
fn last_name_tag_wins() {
    let tags = vec![tag("Name", "first"), tag("Name", "second")];
    assert_eq!(display_name(&tags), "second");
}

#[test]
fn instance_without_a_name_tag_has_the_empty_name() {
    assert_eq!(display_name(&vec![tag("application", "hpc-launcher")]), "");
    assert_eq!(display_name(&Vec::new()), "");
    assert_eq!(display_name(&vec![tag("name", "lower-case-key")]), "");
}

#[test]
fn name_tag_without_a_value_names_nothing() {
    let tags = vec![tag("Name", "kept"), Tag { key: Some("Name".to_string()), value: None }];
    assert_eq!(display_name(&tags), "kept");
    assert_eq!(display_name(&vec![Tag { key: None, value: Some("Name".to_string()) }]), "");
}

#[test]
fn label_shows_name_type_id_and_state() {
    let shown = SelectOption {
        name: "happy-otter".to_string(),
        instance_id: "i-0abc".to_string(),
        public_dns_name: None,
        state: Some("running".to_string()),
        instance_type: Some("t3.micro".to_string()),
    };
    assert_eq!(
        shown.label(),
        "name = happy-otter, type = t3.micro, instance_id = i-0abc, status = running"
    );
}

#[test]
fn label_says_what_is_not_known() {
    assert_eq!(
        option("i-1").label(),
        "name = , type = unknown, instance_id = i-1, status = unknown"
    );
}

#[test]
fn instance_with_an_address_can_be_reached() {
    let mut chosen = option("i-1");
    chosen.public_dns_name = Some("ec2-1-2-3-4.compute.amazonaws.com".to_string());
    assert_eq!(
        chosen.endpoint("ubuntu"),
        Some(Endpoint {
            host: "ec2-1-2-3-4.compute.amazonaws.com".to_string(),
            port: 22,
            user: "ubuntu".to_string()
        })
    );
}

#[test]
fn instance_without_an_address_cannot_be_reached() {
    let mut chosen = option("i-1");
    assert_eq!(chosen.endpoint("ubuntu"), None);
    chosen.public_dns_name = Some(String::new());
    assert_eq!(chosen.endpoint("ubuntu"), None);
}

#[test]
fn error_carries_its_message() {
    assert_eq!(EC2Error::new("Failed to create instance").to_string(), "Failed to create instance");
    assert_eq!(EC2Error::new("").to_string(), "");
}

#[test]
fn context_is_put_before_the_message() {
    let error = EC2Error::new("no such group")._add_message("describe");
    assert_eq!(error.to_string(), "describe: no such group");
}

#[test]
fn service_error_shows_code_and_message() {
    let error = EC2Error::from_metadata(Some("InvalidGroup.NotFound"), Some("no such group"));
    assert_eq!(error.to_string(), "InvalidGroup.NotFound: no such group");
}

#[test]
fn service_error_without_code_or_message_says_so() {
    assert_eq!(
        EC2Error::from_metadata(None, None).to_string(),
        "unknown code: missing reason (most likely profile credentials not set)"
    );
    assert_eq!(EC2Error::from_metadata(None, Some("m")).to_string(), "unknown code: m");
    assert_eq!(
        EC2Error::from_metadata(Some("c"), None).to_string(),
        "c: missing reason (most likely profile credentials not set)"
    );
}

#[test]
fn resources_are_named_as_ever() {
    assert_eq!(GLOBAL_TAG_FILTER, "hpc-launcher");
    assert_eq!(SSH_KEY_NAME, "ec2-ssh-key");
    assert_eq!(SSH_SECURITY_GROUP, "allow-ssh");
}
