use wcid::config::{qualify_sa, resolve_identity, Config, ConfigError, Opts};
use wcid::verbs::Verb;

fn text(s: &str) -> Option<String> {
    Some(s.to_string())
}

fn opts() -> Opts {
    Opts {
        display_group: false,
        namespace: None,
        format: "pretty".to_string(),
        hide_forbidden: false,
        verbs: None,
        show_subresources: false,
        impersonate: None,
        service_account: None,
    }
}

#[test]
fn service_account_is_qualified() {
    assert_eq!(
        qualify_sa("kube-system:default".to_string()),
        "system:serviceaccount:kube-system:default"
    );
}

#[test]
fn qualifying_puts_the_prefix_before_any_text() {
    assert_eq!(qualify_sa(String::new()), "system:serviceaccount:");
    assert_eq!(qualify_sa("ns:✔".to_string()), "system:serviceaccount:ns:✔");
}

#[test]
fn user_and_service_account_together_are_rejected() {
    assert_eq!(
        resolve_identity(text("alice"), text("kube-system:default")),
        Err(ConfigError::ConflictingIdentities)
    );
}

#[test]
fn a_user_is_taken_as_given() {
    assert_eq!(resolve_identity(text("alice"), None), Ok(text("alice")));
}

#[test]
fn a_service_account_is_taken_under_its_qualified_name() {
    assert_eq!(
        resolve_identity(None, text("kube-system:default")),
        Ok(text("system:serviceaccount:kube-system:default"))
    );
}

#[test]
fn no_identity_is_no_identity() {
    assert_eq!(resolve_identity(None, None), Ok(None));
}

#[test]
fn conflict_has_its_message() {
    assert_eq!(
        ConfigError::ConflictingIdentities.message(),
        "Can not use --as with --sa altogether"
    );
}

#[test]
fn options_resolve_to_a_configuration() {
    let config = Config::from_opts(Opts {
        display_group: true,
        namespace: text("default"),
        format: "json".to_string(),
        hide_forbidden: true,
        verbs: text("list,GET"),
        show_subresources: true,
        impersonate: None,
        service_account: text("kube-system:default"),
    });
    assert_eq!(
        config,
        Ok(Config {
            display_group: true,
            namespace: text("default"),
            hide_forbidden: true,
            subresources: true,
            verbs: vec![Verb::Get, Verb::List],
            impersonate: text("system:serviceaccount:kube-system:default"),
        })
    );
}

#[test]
fn bare_options_resolve_to_the_defaults() {
    assert_eq!(
        Config::from_opts(opts()),
        Ok(Config {
            display_group: false,
            namespace: None,
            hide_forbidden: false,
            subresources: false,
            verbs: vec![Verb::Get, Verb::Create, Verb::Delete, Verb::Update],
            impersonate: None,
        })
    );
}

#[test]
fn conflicting_options_give_no_configuration() {
    let mut given = opts();
    given.impersonate = text("alice");
    given.service_account = text("ns:sa");
    assert_eq!(Config::from_opts(given), Err(ConfigError::ConflictingIdentities));
}

#[test]
fn a_copy_of_a_configuration_is_equal_to_it() {
    let config = Config {
        display_group: true,
        namespace: text("default"),
        hide_forbidden: false,
        subresources: true,
        verbs: vec![Verb::Patch, Verb::Get],
        impersonate: text("alice"),
    };
    assert_eq!(config.clone(), config);
}
