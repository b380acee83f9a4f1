//! Connections to a cluster behind a cloud proxy: what the configuration
//! bundle describes, and the TLS setup that it asks for towards one node.

use crate::text::str_eq;
use uuid::Uuid;
use vstd::prelude::*;

verus! {

/// The identifier of a host, of the `uuid` crate.
#[verifier::external_type_specification]
#[verifier::external_body]
pub struct ExUuid(Uuid);

/// A datacenter of the bundle: its certificate authority, the address of its
/// proxy, the domain of its nodes, and whether the certificate of the server
/// is left unverified.
#[derive(Debug)]
pub struct Datacenter {
    pub name: String,
    pub certificate_authority: Vec<u8>,
    pub server: String,
    pub node_domain: String,
    pub insecure_skip_tls_verify: bool,
}

/// The credentials of a client: its certificate and key, and the user.
#[derive(Debug)]
pub struct AuthInfo {
    pub name: String,
    pub client_certificate: Vec<u8>,
    pub client_key: Vec<u8>,
    pub username: Option<String>,
    pub password: Option<String>,
}

/// A context of the bundle: a datacenter together with credentials.
#[derive(Debug)]
pub struct Context {
    pub name: String,
    pub datacenter_name: String,
    pub auth_info_name: String,
}

/// The place of the first of `names` that is `name`.
pub open spec fn first_of_name(names: Seq<Seq<char>>, name: Seq<char>) -> Option<int>
    decreases names.len(),
{
    if names.len() == 0 {
        None
    } else {
        match first_of_name(names.drop_last(), name) {
            Some(i) => Some(i),
            None => if names.last() == name {
                Some(names.len() - 1)
            } else {
                None
            },
        }
    }
}

/// What is found among the first `n` names is found among all.
proof fn lemma_found_stays(names: Seq<Seq<char>>, name: Seq<char>, n: int, i: int)
    requires
        0 <= n <= names.len(),
        first_of_name(names.take(n), name) == Some(i),
    ensures
        first_of_name(names, name) == Some(i),
    decreases names.len() - n,
{
    if n < names.len() {
        assert(names.take(n + 1).drop_last() == names.take(n));
        lemma_found_stays(names, name, n + 1, i);
    } else {
        assert(names.take(n) == names);
    }
}

/// The names of the datacenters, in order.
pub open spec fn datacenter_names(datacenters: Seq<Datacenter>) -> Seq<Seq<char>> {
    Seq::new(datacenters.len(), |i: int| datacenters[i].name@)
}

/// The names of the credentials, in order.
pub open spec fn auth_info_names(auth_infos: Seq<AuthInfo>) -> Seq<Seq<char>> {
    Seq::new(auth_infos.len(), |i: int| auth_infos[i].name@)
}

/// The names of the contexts, in order.
pub open spec fn context_names(contexts: Seq<Context>) -> Seq<Seq<char>> {
    Seq::new(contexts.len(), |i: int| contexts[i].name@)
}

/// The place of the first datacenter of the given name.
pub open spec fn find_datacenter(datacenters: Seq<Datacenter>, name: Seq<char>) -> Option<int> {
    first_of_name(datacenter_names(datacenters), name)
}

/// The place of the first credentials of the given name.
pub open spec fn find_auth_info(auth_infos: Seq<AuthInfo>, name: Seq<char>) -> Option<int> {
    first_of_name(auth_info_names(auth_infos), name)
}

/// The place of the first context of the given name.
pub open spec fn find_context(contexts: Seq<Context>, name: Seq<char>) -> Option<int> {
    first_of_name(context_names(contexts), name)
}

fn lookup_datacenter(datacenters: &Vec<Datacenter>, name: &str) -> (found: Option<usize>)
    ensures
        match found {
            Some(i) => find_datacenter(datacenters@, name@) == Some(i as int) && i
                < datacenters@.len(),
            None => find_datacenter(datacenters@, name@) is None,
        },
{
    let ghost names = datacenter_names(datacenters@);
    let n: usize = datacenters.len();
    let mut i: usize = 0;
    while i < n
        invariant
            i <= n,
            n == datacenters@.len(),
            names == datacenter_names(datacenters@),
            first_of_name(names.take(i as int), name@) is None,
        decreases n - i,
    {
        proof {
            assert(names.take(i + 1).drop_last() == names.take(i as int));
        }
        if str_eq(datacenters[i].name.as_str(), name) {
            proof {
                lemma_found_stays(names, name@, i + 1, i as int);
            }
            return Some(i);
        }
        i = i + 1;
    }
    assert(names.take(n as int) == names);
    None
}

fn lookup_auth_info(auth_infos: &Vec<AuthInfo>, name: &str) -> (found: Option<usize>)
    ensures
        match found {
            Some(i) => find_auth_info(auth_infos@, name@) == Some(i as int) && i < auth_infos@.len(),
            None => find_auth_info(auth_infos@, name@) is None,
        },
{
    let ghost names = auth_info_names(auth_infos@);
    let n: usize = auth_infos.len();
    let mut i: usize = 0;
    while i < n
        invariant
            i <= n,
            n == auth_infos@.len(),
            names == auth_info_names(auth_infos@),
            first_of_name(names.take(i as int), name@) is None,
        decreases n - i,
    {
        proof {
            assert(names.take(i + 1).drop_last() == names.take(i as int));
        }
        if str_eq(auth_infos[i].name.as_str(), name) {
            proof {
                lemma_found_stays(names, name@, i + 1, i as int);
            }
            return Some(i);
        }
        i = i + 1;
    }
    assert(names.take(n as int) == names);
    None
}

fn lookup_context(contexts: &Vec<Context>, name: &str) -> (found: Option<usize>)
    ensures
        match found {
            Some(i) => find_context(contexts@, name@) == Some(i as int) && i < contexts@.len(),
            None => find_context(contexts@, name@) is None,
        },
{
    let ghost names = context_names(contexts@);
    let n: usize = contexts.len();
    let mut i: usize = 0;
    while i < n
        invariant
            i <= n,
            n == contexts@.len(),
            names == context_names(contexts@),
            first_of_name(names.take(i as int), name@) is None,
        decreases n - i,
    {
        proof {
            assert(names.take(i + 1).drop_last() == names.take(i as int));
        }
        if str_eq(contexts[i].name.as_str(), name) {
            proof {
                lemma_found_stays(names, name@, i + 1, i as int);
            }
            return Some(i);
        }
        i = i + 1;
    }
    assert(names.take(n as int) == names);
    None
}

/// Why a bundle is no configuration.
#[derive(Debug)]
pub enum CloudConfigError {
    /// The bundle has no context of the name that it gives as the current one.
    UnknownCurrentContext { name: String },
    /// The current context names credentials that the bundle does not have.
    UnknownAuthInfo { name: String },
    /// The current context names a datacenter that the bundle does not have.
    UnknownDatacenter { name: String },
}

/// The current context of a bundle, if it resolves: the context of the
/// current name, whose credentials and datacenter the bundle has.
pub open spec fn current_of(
    datacenters: Seq<Datacenter>,
    auth_infos: Seq<AuthInfo>,
    contexts: Seq<Context>,
    current_context: Seq<char>,
) -> Option<int> {
    match find_context(contexts, current_context) {
        Some(c) => if find_auth_info(auth_infos, contexts[c].auth_info_name@) is Some
            && find_datacenter(datacenters, contexts[c].datacenter_name@) is Some {
            Some(c)
        } else {
            None
        },
        None => None,
    }
}

/// The configuration of a connection through a cloud proxy.
#[derive(Debug)]
pub struct CloudConfig {
    datacenters: Vec<Datacenter>,
    auth_infos: Vec<AuthInfo>,
    contexts: Vec<Context>,
    current_context: String,
}

impl CloudConfig {
    #[verifier::type_invariant]
    spec fn inv(self) -> bool {
        current_of(self.datacenters@, self.auth_infos@, self.contexts@, self.current_context@)
            is Some
    }

    /// The datacenters of the bundle.
    pub closed spec fn datacenters(self) -> Seq<Datacenter> {
        self.datacenters@
    }

    /// The credentials of the bundle.
    pub closed spec fn auth_infos(self) -> Seq<AuthInfo> {
        self.auth_infos@
    }

    /// The contexts of the bundle.
    pub closed spec fn contexts(self) -> Seq<Context> {
        self.contexts@
    }

    /// The name of the current context.
    pub closed spec fn current_context(self) -> Seq<char> {
        self.current_context@
    }

    /// The credentials of the current context.
    pub open spec fn current_auth_info(self) -> AuthInfo {
        let context = self.contexts()[find_context(self.contexts(), self.current_context())->0];
        self.auth_infos()[find_auth_info(self.auth_infos(), context.auth_info_name@)->0]
    }

    /// Makes a configuration of the parts of a bundle, if its current context
    /// resolves.
    pub fn new(
        datacenters: Vec<Datacenter>,
        auth_infos: Vec<AuthInfo>,
        contexts: Vec<Context>,
        current_context: String,
    ) -> (outcome: Result<CloudConfig, CloudConfigError>)
        ensures
            match outcome {
                Ok(config) => {
                    &&& current_of(datacenters@, auth_infos@, contexts@, current_context@) is Some
                    &&& config.datacenters() == datacenters@
                    &&& config.auth_infos() == auth_infos@
                    &&& config.contexts() == contexts@
                    &&& config.current_context() == current_context@
                },
                Err(CloudConfigError::UnknownCurrentContext { name }) => {
                    &&& name@ == current_context@
                    &&& find_context(contexts@, current_context@) is None
                },
                Err(CloudConfigError::UnknownAuthInfo { name }) => {
                    &&& find_context(contexts@, current_context@) matches Some(c)
                    &&& name@ == contexts@[c].auth_info_name@
                    &&& find_auth_info(auth_infos@, name@) is None
                },
                Err(CloudConfigError::UnknownDatacenter { name }) => {
                    &&& find_context(contexts@, current_context@) matches Some(c)
                    &&& find_auth_info(auth_infos@, contexts@[c].auth_info_name@) is Some
                    &&& name@ == contexts@[c].datacenter_name@
                    &&& find_datacenter(datacenters@, name@) is None
                },
            },
    {
        let c = match lookup_context(&contexts, current_context.as_str()) {
            Some(c) => c,
            None => {
                return Err(CloudConfigError::UnknownCurrentContext { name: current_context });
            },
        };
        if lookup_auth_info(&auth_infos, contexts[c].auth_info_name.as_str()).is_none() {
            return Err(
                CloudConfigError::UnknownAuthInfo { name: contexts[c].auth_info_name.clone() },
            );
        }
        if lookup_datacenter(&datacenters, contexts[c].datacenter_name.as_str()).is_none() {
            return Err(
                CloudConfigError::UnknownDatacenter { name: contexts[c].datacenter_name.clone() },
            );
        }
        Ok(CloudConfig { datacenters, auth_infos, contexts, current_context })
    }

    /// The datacenters of the bundle.
    pub fn get_datacenters(&self) -> (datacenters: &Vec<Datacenter>)
        ensures
            datacenters@ == self.datacenters(),
    {
        &self.datacenters
    }

    /// The datacenter of the given name.
    pub fn get_datacenter(&self, name: &str) -> (datacenter: Option<&Datacenter>)
        ensures
            match datacenter {
                Some(d) => find_datacenter(self.datacenters(), name@) matches Some(i) && *d
                    == self.datacenters()[i],
                None => find_datacenter(self.datacenters(), name@) is None,
            },
    {
        match lookup_datacenter(&self.datacenters, name) {
            Some(i) => Some(&self.datacenters[i]),
            None => None,
        }
    }

    /// The credentials of the current context.
    pub fn get_current_auth_info(&self) -> (auth_info: &AuthInfo)
        ensures
            *auth_info == self.current_auth_info(),
    {
        proof {
            use_type_invariant(self);
        }
        let c = lookup_context(&self.contexts, self.current_context.as_str());
        let context = &self.contexts[c.unwrap()];
        let a = lookup_auth_info(&self.auth_infos, context.auth_info_name.as_str());
        &self.auth_infos[a.unwrap()]
    }
}

/// How the certificate of the server is verified.
#[derive(Clone, Copy, Debug, PartialEq, Eq, Structural)]
pub enum TlsVerifyMode {
    /// The certificate is not verified.
    Unverified,
    /// The certificate of the peer is verified.
    Peer,
}

/// The TLS setup of the connections to one node behind the proxy: what the
/// TLS context is made of, and the domain and the host for the server name.
#[derive(Debug)]
pub struct TlsConfig {
    pub verify_mode: TlsVerifyMode,
    pub certificate_authority: Vec<u8>,
    pub client_certificate: Vec<u8>,
    pub client_key: Vec<u8>,
    pub domain_name: String,
    pub host_id: Option<Uuid>,
}

/// The TLS setup that a datacenter and the credentials of a client ask for
/// towards the host of the given identifier.
pub open spec fn tls_config_for(
    datacenter: Datacenter,
    auth_info: AuthInfo,
    host_id: Option<Uuid>,
    config: TlsConfig,
) -> bool {
    &&& config.verify_mode == if datacenter.insecure_skip_tls_verify {
        TlsVerifyMode::Unverified
    } else {
        TlsVerifyMode::Peer
    }
    &&& config.certificate_authority@ == datacenter.certificate_authority@
    &&& config.client_certificate@ == auth_info.client_certificate@
    &&& config.client_key@ == auth_info.client_key@
    &&& config.domain_name@ == datacenter.node_domain@
    &&& config.host_id == host_id
}

/// The TLS setup for the connections to a node of the datacenter `dc` behind
/// the proxy. There is none where the node names no datacenter or one that
/// the configuration does not describe: such a node is connected to without
/// a server name.
pub fn make_tls_config_for_scylla_cloud_host(
    host_id: Option<Uuid>,
    dc: Option<&str>,
    cloud_config: &CloudConfig,
) -> (outcome: Option<TlsConfig>)
    ensures
        match outcome {
            Some(config) => {
                &&& dc matches Some(name)
                &&& find_datacenter(cloud_config.datacenters(), name@) matches Some(i)
                &&& tls_config_for(
                    cloud_config.datacenters()[i],
                    cloud_config.current_auth_info(),
                    host_id,
                    config,
                )
            },
            None => dc matches Some(name) ==> find_datacenter(cloud_config.datacenters(), name@)
                is None,
        },
{
    let datacenter = match dc {
        Some(name) => match cloud_config.get_datacenter(name) {
            Some(datacenter) => datacenter,
            None => {
                return None;
            },
        },
        None => {
            return None;
        },
    };
    let auth_info = cloud_config.get_current_auth_info();
    let verify_mode = if datacenter.insecure_skip_tls_verify {
        TlsVerifyMode::Unverified
    } else {
        TlsVerifyMode::Peer
    };
    Some(
        TlsConfig {
            verify_mode,
            certificate_authority: datacenter.certificate_authority.clone(),
            client_certificate: auth_info.client_certificate.clone(),
            client_key: auth_info.client_key.clone(),
            domain_name: datacenter.node_domain.clone(),
            host_id,
        },
    )
}

} // verus!
