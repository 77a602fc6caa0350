//! Endpoint templates, as a partition table holds them, and resolved
//! endpoints, as a caller gets them.

use vstd::prelude::*;
use vstd::string::StringExecFns;
use crate::text::{substitute, substituted};

verus! {

/// The transport that an endpoint is reached over.
#[derive(Clone, Copy, Debug, PartialEq, Eq, Structural)]
pub enum Protocol {
    Http,
    Https,
}

/// The signing schemes that an endpoint takes.
#[derive(Clone, Copy, Debug, PartialEq, Eq, Structural)]
pub enum SignatureVersion {
    V4,
}

/// The region that requests to an endpoint are signed for, where it is not
/// the region that was asked for.
#[derive(Debug, PartialEq, Eq)]
pub struct CredentialScope {
    pub region: Option<String>,
}

impl View for CredentialScope {
    type V = Option<Seq<char>>;

    open spec fn view(&self) -> Option<Seq<char>> {
        match self.region {
            Some(region) => Some(region@),
            None => None,
        }
    }
}

impl Clone for CredentialScope {
    fn clone(&self) -> (copy: Self)
        ensures
            copy@ == self@,
    {
        match &self.region {
            Some(region) => CredentialScope { region: Some(region.clone()) },
            None => CredentialScope { region: None },
        }
    }
}

impl CredentialScope {
    /// Starts a scope that names no region.
    pub fn builder() -> (builder: CredentialScopeBuilder)
        ensures
            builder@ is None,
    {
        CredentialScopeBuilder { region: None }
    }
}

/// A credential scope in the making.
#[derive(Debug)]
pub struct CredentialScopeBuilder {
    pub region: Option<String>,
}

impl View for CredentialScopeBuilder {
    type V = Option<Seq<char>>;

    open spec fn view(&self) -> Option<Seq<char>> {
        match self.region {
            Some(region) => Some(region@),
            None => None,
        }
    }
}

impl CredentialScopeBuilder {
    /// Names the region to sign for.
    pub fn region(self, region: &str) -> (builder: Self)
        ensures
            builder@ == Some(region@),
    {
        CredentialScopeBuilder { region: Some(String::from_str(region)) }
    }

    /// The scope as it was described.
    pub fn build(self) -> (scope: CredentialScope)
        ensures
            scope@ == self@,
    {
        CredentialScope { region: self.region }
    }
}

/// What a partition table says of an endpoint.
#[derive(Debug, PartialEq, Eq)]
pub struct EndpointTemplate {
    /// The address, in which a placeholder may stand for the region.
    pub uri_template: String,
    pub protocol: Protocol,
    pub signature_versions: SignatureVersion,
    pub credential_scope: CredentialScope,
}

/// An endpoint template as plain values.
pub struct TemplateView {
    pub uri_template: Seq<char>,
    pub protocol: Protocol,
    pub signature_versions: SignatureVersion,
    pub credential_scope: Option<Seq<char>>,
}

impl View for EndpointTemplate {
    type V = TemplateView;

    open spec fn view(&self) -> TemplateView {
        TemplateView {
            uri_template: self.uri_template@,
            protocol: self.protocol,
            signature_versions: self.signature_versions,
            credential_scope: self.credential_scope@,
        }
    }
}

impl Clone for EndpointTemplate {
    fn clone(&self) -> (copy: Self)
        ensures
            copy@ == self@,
    {
        EndpointTemplate {
            uri_template: self.uri_template.clone(),
            protocol: self.protocol,
            signature_versions: self.signature_versions,
            credential_scope: self.credential_scope.clone(),
        }
    }
}

impl TemplateView {
    /// The region to sign for when `requested` was asked for: the one that
    /// the credential scope names, and `requested` where it names none.
    pub open spec fn signing_region(self, requested: Seq<char>) -> Seq<char> {
        match self.credential_scope {
            Some(region) => region,
            None => requested,
        }
    }

    /// The template with `uri` as its address.
    pub open spec fn with_uri(self, uri: Seq<char>) -> TemplateView {
        TemplateView { uri_template: uri, ..self }
    }

    /// The template with its address made out for `region`: with `region`
    /// in the place of each placeholder. What else the template says is
    /// kept.
    pub open spec fn made_out(self, region: Seq<char>) -> TemplateView {
        self.with_uri(substituted(self.uri_template, region))
    }

    /// The endpoint that a template gives, once its address is made out,
    /// when `requested` was asked for: its address, and the region to sign
    /// for.
    pub open spec fn resolved(self, requested: Seq<char>) -> ResolvedView {
        ResolvedView {
            uri: self.uri_template,
            protocol: self.protocol,
            signature_versions: self.signature_versions,
            signing_region: self.signing_region(requested),
        }
    }
}

impl EndpointTemplate {
    /// The template with its address made out for `region`.
    pub fn made_out(&self, region: &str) -> (template: EndpointTemplate)
        ensures
            template@ == self@.made_out(region@),
    {
        EndpointTemplate {
            uri_template: substitute(self.uri_template.as_str(), region),
            protocol: self.protocol,
            signature_versions: self.signature_versions,
            credential_scope: self.credential_scope.clone(),
        }
    }

    /// The region to sign for when `requested` was asked for.
    pub fn resolve_signing_region(&self, requested: &str) -> (region: String)
        ensures
            region@ == self@.signing_region(requested@),
    {
        match &self.credential_scope.region {
            Some(region) => region.clone(),
            None => String::from_str(requested),
        }
    }

    /// The endpoint that the template gives when `requested` was asked for.
    pub fn into_resolved(self, requested: &str) -> (endpoint: ResolvedEndpoint)
        ensures
            endpoint@ == self@.resolved(requested@),
    {
        let signing_region = self.resolve_signing_region(requested);
        ResolvedEndpoint {
            uri: self.uri_template,
            protocol: self.protocol,
            signature_versions: self.signature_versions,
            signing_region,
        }
    }
}

/// Where requests for a region go, and how they are signed.
#[derive(Debug, PartialEq, Eq)]
pub struct ResolvedEndpoint {
    pub uri: String,
    pub protocol: Protocol,
    pub signature_versions: SignatureVersion,
    pub signing_region: String,
}

/// A resolved endpoint as plain values.
pub struct ResolvedView {
    pub uri: Seq<char>,
    pub protocol: Protocol,
    pub signature_versions: SignatureVersion,
    pub signing_region: Seq<char>,
}

impl View for ResolvedEndpoint {
    type V = ResolvedView;

    open spec fn view(&self) -> ResolvedView {
        ResolvedView {
            uri: self.uri@,
            protocol: self.protocol,
            signature_versions: self.signature_versions,
            signing_region: self.signing_region@,
        }
    }
}

impl Clone for ResolvedEndpoint {
    fn clone(&self) -> (copy: Self)
        ensures
            copy@ == self@,
    {
        ResolvedEndpoint {
            uri: self.uri.clone(),
            protocol: self.protocol,
            signature_versions: self.signature_versions,
            signing_region: self.signing_region.clone(),
        }
    }
}

} // verus!
