//! Who a node is.
use crate::net::IpAddr;
use vstd::prelude::*;
use vstd::string::*;

verus! {

/// Where certificates are ordered.
pub const ACME_PRODUCTION_URL: &'static str = "https://acme-v02.api.letsencrypt.org/directory";

/// Where certificates for trying out are ordered.
pub const ACME_STAGING_URL: &'static str = "https://acme-staging-v02.api.letsencrypt.org/directory";

/// Persistent identity for this node, stored in `<data_dir>/node.json`.
#[derive(Debug, PartialEq, Eq)]
pub struct NodeIdentity {
    pub node_id: String,
    pub raft_id: u64,
    pub cluster_token: String,
    pub rpc_port: u16,
    pub advertise_addr: String,
    pub provider: Option<String>,
    pub provider_token: Option<String>,
    pub region: Option<String>,
    pub wireguard_subnet: String,
    pub peers: Vec<PeerEntry>,
    pub acme_email: Option<String>,
    pub acme_staging: Option<bool>,
}

/// A peer as persisted in node.json.
#[derive(Debug, PartialEq, Eq)]
pub struct PeerEntry {
    pub raft_id: u64,
    pub advertise_addr: String,
    pub tunnel_ip: IpAddr,
    pub public_key: String,
}

/// How certificates are ordered.
#[derive(Debug, PartialEq, Eq)]
pub struct AcmeConfig {
    pub contact: Vec<String>,
    pub directory_url: String,
}

/// Whether certificates are ordered for someone who can be reached by mail.
pub open spec fn orders_for(config: AcmeConfig, email: Seq<char>, staging: bool) -> bool {
    &&& config.contact@.len() == 1
    &&& config.contact@[0]@ == "mailto:"@ + email
    &&& config.directory_url@ == if staging {
        ACME_STAGING_URL@
    } else {
        ACME_PRODUCTION_URL@
    }
}

/// Whether a configuration is what an identity asks for.
pub open spec fn acme_asked(identity: NodeIdentity, config: Option<AcmeConfig>) -> bool {
    match identity.acme_email {
        Some(email) => config is Some && orders_for(
            config->0,
            email@,
            identity.acme_staging == Some(true),
        ),
        None => config is None,
    }
}

impl NodeIdentity {
    /// Build an `AcmeConfig` from persisted ACME fields.
    /// Returns `None` when no `acme_email` is set.
    pub fn acme_config(&self) -> (res: Option<AcmeConfig>)
        ensures
            acme_asked(*self, res),
    {
        match &self.acme_email {
            None => None,
            Some(email) => {
                let staging: bool = match self.acme_staging {
                    Some(b) => b,
                    None => false,
                };
                let mut address = "mailto:".to_owned();
                address.append(email.as_str());
                let mut contact: Vec<String> = Vec::new();
                contact.push(address);
                let directory_url = if staging {
                    ACME_STAGING_URL.to_owned()
                } else {
                    ACME_PRODUCTION_URL.to_owned()
                };
                Some(AcmeConfig { contact, directory_url })
            },
        }
    }
}

/// Certificates are ordered where there is someone to reach, for that address alone,
/// and where they are only tried out they are ordered for trying out.
pub proof fn certificates_are_ordered_as_asked(identity: NodeIdentity, config: Option<AcmeConfig>)
    requires
        acme_asked(identity, config),
    ensures
        config is Some <==> identity.acme_email is Some,
        config is Some ==> {
            &&& config->0.contact@.len() == 1
            &&& config->0.contact@[0]@ == "mailto:"@ + identity.acme_email->0@
            &&& identity.acme_staging == Some(true) ==> config->0.directory_url@
                == "https://acme-staging-v02.api.letsencrypt.org/directory"@
            &&& identity.acme_staging != Some(true) ==> config->0.directory_url@
                == "https://acme-v02.api.letsencrypt.org/directory"@
        },
{
}

} // verus!
