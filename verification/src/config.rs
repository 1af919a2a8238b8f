//! The caller's options, and the configuration of a run that they resolve to.

use crate::text::copy_opt_text;
use crate::verbs::{handle_verbs, selected_verbs, Verb};
use vstd::prelude::*;
use vstd::string::StringExecFns;

verus! {

/// The options as the caller gave them.
#[derive(Debug, PartialEq, Eq)]
pub struct Opts {
    /// Display the API group before the resource kind.
    pub display_group: bool,
    /// Check the permissions for a specific namespace.
    pub namespace: Option<String>,
    /// Output format: `json`, or anything else for the table.
    pub format: String,
    /// Only show resources for which at least one action is allowed.
    pub hide_forbidden: bool,
    /// Comma-separated verbs to query for.
    pub verbs: Option<String>,
    /// Show subresources.
    pub show_subresources: bool,
    /// Enumerate rights as another user.
    pub impersonate: Option<String>,
    /// Enumerate rights as a service account, given as `namespace:name`.
    pub service_account: Option<String>,
}

/// What `Opts` holds.
pub struct OptsModel {
    pub display_group: bool,
    pub namespace: Option<Seq<char>>,
    pub format: Seq<char>,
    pub hide_forbidden: bool,
    pub verbs: Option<Seq<char>>,
    pub show_subresources: bool,
    pub impersonate: Option<Seq<char>>,
    pub service_account: Option<Seq<char>>,
}

impl View for Opts {
    type V = OptsModel;

    open spec fn view(&self) -> OptsModel {
        OptsModel {
            display_group: self.display_group,
            namespace: self.namespace.deep_view(),
            format: self.format@,
            hide_forbidden: self.hide_forbidden,
            verbs: self.verbs.deep_view(),
            show_subresources: self.show_subresources,
            impersonate: self.impersonate.deep_view(),
            service_account: self.service_account.deep_view(),
        }
    }
}

/// The configuration of one run.
#[derive(Debug, PartialEq, Eq)]
pub struct Config {
    /// Show the API group as a column of its own.
    pub display_group: bool,
    /// Namespace that every query is scoped to; absent for cluster-scoped queries.
    pub namespace: Option<String>,
    /// Drop the resources for which no probed verb is allowed.
    pub hide_forbidden: bool,
    /// Keep subresources in the run.
    pub subresources: bool,
    /// The verbs to probe, in the order of the report's columns.
    pub verbs: Vec<Verb>,
    /// The identity in whose name the queries are evaluated; absent for the caller's own.
    pub impersonate: Option<String>,
}

/// What a `Config` holds.
pub struct ConfigModel {
    pub display_group: bool,
    pub namespace: Option<Seq<char>>,
    pub hide_forbidden: bool,
    pub subresources: bool,
    pub verbs: Seq<Verb>,
    pub impersonate: Option<Seq<char>>,
}

impl View for Config {
    type V = ConfigModel;

    open spec fn view(&self) -> ConfigModel {
        ConfigModel {
            display_group: self.display_group,
            namespace: self.namespace.deep_view(),
            hide_forbidden: self.hide_forbidden,
            subresources: self.subresources,
            verbs: self.verbs@,
            impersonate: self.impersonate.deep_view(),
        }
    }
}

impl DeepView for Config {
    type V = ConfigModel;

    open spec fn deep_view(&self) -> ConfigModel {
        self@
    }
}

impl Clone for Config {
    fn clone(&self) -> (r: Self)
        ensures
            r@ == self@,
    {
        let mut verbs: Vec<Verb> = Vec::new();
        let mut i: usize = 0;
        while i < self.verbs.len()
            invariant
                i <= self.verbs.len(),
                verbs@ == self.verbs@.take(i as int),
            decreases self.verbs.len() - i,
        {
            verbs.push(self.verbs[i]);
            assert(verbs@ =~= self.verbs@.take(i + 1));
            i += 1;
        }
        assert(verbs@ =~= self.verbs@);
        Config {
            display_group: self.display_group,
            namespace: copy_opt_text(&self.namespace),
            hide_forbidden: self.hide_forbidden,
            subresources: self.subresources,
            verbs,
            impersonate: copy_opt_text(&self.impersonate),
        }
    }
}

/// Why the caller's options give no configuration.
#[derive(Clone, Copy, Debug, PartialEq, Eq, Structural)]
pub enum ConfigError {
    /// Both a user and a service account were given to act as.
    ConflictingIdentities,
}

impl ConfigError {
    /// The message to show the caller.
    pub fn message(&self) -> (s: &'static str)
        ensures
            s@ == "Can not use --as with --sa altogether"@,
    {
        match self {
            ConfigError::ConflictingIdentities => "Can not use --as with --sa altogether",
        }
    }
}

/// The user name under which the control plane knows a service account.
pub open spec fn qualified(service_account: Seq<char>) -> Seq<char> {
    "system:serviceaccount:"@ + service_account
}

/// The user name under which the control plane knows the service account
/// `namespace:name`.
pub fn qualify_sa(service_account: String) -> (r: String)
    ensures
        r@ == qualified(service_account@),
{
    String::from_str("system:serviceaccount:").concat(service_account.as_str())
}

/// The identity that the two impersonation options name together: the user as given, or
/// the service account under its qualified name, or none. Both at once name no identity.
pub open spec fn identity_of(
    impersonate: Option<Seq<char>>,
    service_account: Option<Seq<char>>,
) -> Result<Option<Seq<char>>, ConfigError> {
    match (impersonate, service_account) {
        (Some(_), Some(_)) => Err(ConfigError::ConflictingIdentities),
        (Some(user), None) => Ok(Some(user)),
        (None, Some(account)) => Ok(Some(qualified(account))),
        (None, None) => Ok(None),
    }
}

/// What `Result<Option<String>, ConfigError>` holds.
pub open spec fn identity_view(r: Result<Option<String>, ConfigError>) -> Result<
    Option<Seq<char>>,
    ConfigError,
> {
    match r {
        Ok(identity) => Ok(identity.deep_view()),
        Err(e) => Err(e),
    }
}

/// Resolves the two impersonation options to the identity to act as. Giving both is an
/// error.
pub fn resolve_identity(impersonate: Option<String>, service_account: Option<String>) -> (r:
    Result<Option<String>, ConfigError>)
    ensures
        identity_view(r) == identity_of(impersonate.deep_view(), service_account.deep_view()),
        r is Err <==> impersonate is Some && service_account is Some,
{
    match (impersonate, service_account) {
        (Some(_), Some(_)) => Err(ConfigError::ConflictingIdentities),
        (Some(user), None) => Ok(Some(user)),
        (None, Some(account)) => Ok(Some(qualify_sa(account))),
        (None, None) => Ok(None),
    }
}

/// The configuration that options resolve to.
pub open spec fn config_of(opts: OptsModel) -> Result<ConfigModel, ConfigError> {
    match identity_of(opts.impersonate, opts.service_account) {
        Err(e) => Err(e),
        Ok(identity) => Ok(
            ConfigModel {
                display_group: opts.display_group,
                namespace: opts.namespace,
                hide_forbidden: opts.hide_forbidden,
                subresources: opts.show_subresources,
                verbs: selected_verbs(opts.verbs),
                impersonate: identity,
            },
        ),
    }
}

/// What `Result<Config, ConfigError>` holds.
pub open spec fn config_view(r: Result<Config, ConfigError>) -> Result<ConfigModel, ConfigError> {
    match r {
        Ok(config) => Ok(config@),
        Err(e) => Err(e),
    }
}

impl Config {
    /// Resolves the caller's options to the configuration of a run. Fails, before anything
    /// else is looked at, when both a user and a service account are given.
    pub fn from_opts(opts: Opts) -> (r: Result<Config, ConfigError>)
        ensures
            config_view(r) == config_of(opts@),
            r is Err <==> opts.impersonate is Some && opts.service_account is Some,
    {
        let impersonate = match resolve_identity(opts.impersonate, opts.service_account) {
            Ok(identity) => identity,
            Err(e) => {
                return Err(e);
            },
        };
        Ok(
            Config {
                display_group: opts.display_group,
                namespace: opts.namespace,
                hide_forbidden: opts.hide_forbidden,
                subresources: opts.show_subresources,
                verbs: handle_verbs(opts.verbs),
                impersonate,
            },
        )
    }
}

} // verus!
