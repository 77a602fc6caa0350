//! Partitions: groups of regions that share a pattern and a default
//! endpoint, and the endpoints that a partition lists by name.

use vstd::prelude::*;
use vstd::string::StringExecFns;
use crate::endpoint::{EndpointTemplate, ResolvedEndpoint, ResolvedView, TemplateView};
use crate::parse::parse_pattern;
use crate::pattern::Pattern;
use crate::text::{all_distinct, texts};

verus! {

/// Whether the address of a partition's endpoints changes with the region.
#[derive(Clone, Copy, Debug, PartialEq, Eq, Structural)]
pub enum Regionalized {
    /// Each region has an address of its own.
    Regionalized,
    /// One address serves every region.
    NotRegionalized,
}

/// Why a partition table is refused.
#[derive(Clone, Copy, Debug, PartialEq, Eq, Structural)]
pub enum ConfigurationError {
    /// Two partitions have the same id.
    DuplicatePartitionId,
    /// A region pattern is not the written form of a pattern.
    InvalidPattern,
    /// A partition lists two endpoints under the same name.
    DuplicateEndpointKey,
}

/// A partition as plain values.
pub struct PartitionView {
    pub id: Seq<char>,
    /// The written form of the pattern that the partition's regions follow.
    pub region_pattern: Seq<char>,
    /// The region whose name a partition with one address has in it.
    pub home_region: Option<Seq<char>>,
    pub regionalized: Regionalized,
    pub default_endpoint: TemplateView,
    /// The endpoints that are listed by name, in the order of listing.
    pub endpoints: Seq<(Seq<char>, TemplateView)>,
}

impl PartitionView {
    /// A partition with the id `id`, whose regions follow the pattern
    /// written as `region_pattern`: each region has an address of its own,
    /// made from `default_endpoint`, and no endpoint is listed.
    pub open spec fn starting(
        id: Seq<char>,
        region_pattern: Seq<char>,
        default_endpoint: TemplateView,
    ) -> PartitionView {
        PartitionView {
            id,
            region_pattern,
            home_region: None,
            regionalized: Regionalized::Regionalized,
            default_endpoint,
            endpoints: Seq::empty(),
        }
    }

    /// The partition with `endpoint` listed under `region`, after those
    /// listed before.
    pub open spec fn listing(self, region: Seq<char>, endpoint: TemplateView) -> PartitionView {
        PartitionView { endpoints: self.endpoints.push((region, endpoint)), ..self }
    }

    /// The names under which endpoints are listed.
    pub open spec fn keys(self) -> Seq<Seq<char>> {
        self.endpoints.map_values(|entry: (Seq<char>, TemplateView)| entry.0)
    }

    /// What is wrong with the partition, if anything is.
    pub open spec fn defect(self) -> Option<ConfigurationError> {
        if parse_pattern(self.region_pattern) is None {
            Some(ConfigurationError::InvalidPattern)
        } else if !self.keys().no_duplicates() {
            Some(ConfigurationError::DuplicateEndpointKey)
        } else {
            None
        }
    }

    /// Whether the pattern can be compiled and no name is listed twice.
    pub open spec fn well_formed(self) -> bool {
        self.defect() is None
    }

    /// Whether the partition's pattern accepts `region`.
    pub open spec fn can_resolve(self, region: Seq<char>) -> bool {
        match parse_pattern(self.region_pattern) {
            Some(pattern) => pattern.accepts(region),
            None => false,
        }
    }

    /// Whether the entry at `at` is listed under `region`.
    pub open spec fn listed_at(self, region: Seq<char>, at: int) -> bool {
        0 <= at < self.endpoints.len() && self.endpoints[at].0 == region
    }

    /// The endpoint that is listed under `region`, if one is.
    pub open spec fn listed(self, region: Seq<char>) -> Option<TemplateView> {
        if exists|at: int| self.listed_at(region, at) {
            Some(self.endpoints[choose|at: int| self.listed_at(region, at)].1)
        } else {
            None
        }
    }

    /// The region whose name goes into the default address when `region`
    /// was asked for: `region` itself where each region has an address of
    /// its own; the home region where one address serves every region, and
    /// `region` where such a partition has no home region.
    pub open spec fn address_region(self, region: Seq<char>) -> Seq<char> {
        match (self.regionalized, self.home_region) {
            (Regionalized::NotRegionalized, Some(home)) => home,
            _ => region,
        }
    }

    /// The default endpoint with its address made out for `region`.
    pub open spec fn synthesized(self, region: Seq<char>) -> TemplateView {
        self.default_endpoint.made_out(self.address_region(region))
    }

    /// The template for `region`: the endpoint listed under that name, with
    /// `region` written into its address wherever a placeholder stands, and
    /// where none is listed the default endpoint with its address made out.
    /// An address that is listed without a placeholder is kept as it is
    /// listed.
    pub open spec fn select(self, region: Seq<char>) -> TemplateView {
        match self.listed(region) {
            Some(template) => template.made_out(region),
            None => self.synthesized(region),
        }
    }

    /// The endpoint that the partition gives for `region`.
    pub open spec fn resolve(self, region: Seq<char>) -> ResolvedView {
        self.select(region).resolved(region)
    }
}

/// Listing an endpoint under a name that is not listed yet keeps the names
/// distinct. The endpoint is then what is listed under that name, and what
/// is listed under any other name stays.
pub proof fn lemma_listing(partition: PartitionView, region: Seq<char>, endpoint: TemplateView)
    requires
        partition.keys().no_duplicates(),
        partition.listed(region) is None,
    ensures
        partition.listing(region, endpoint).keys().no_duplicates(),
        partition.listing(region, endpoint).listed(region) == Some(endpoint),
        forall|other: Seq<char>|
            other != region ==> #[trigger] partition.listing(region, endpoint).listed(other)
                == partition.listed(other),
{
    let after = partition.listing(region, endpoint);
    let last = partition.endpoints.len() as int;
    assert(after.keys() =~= partition.keys().push(region));
    assert forall|at: int| 0 <= at < last implies partition.keys()[at] != region by {
        if partition.keys()[at] == region {
            assert(partition.listed_at(region, at));
        }
    }
    assert(after.listed_at(region, last));
    assert(after.listed(region) == Some(endpoint)) by {
        let at = choose|at: int| after.listed_at(region, at);
        if at < last {
            assert(partition.listed_at(region, at));
        }
    }
    assert forall|other: Seq<char>| other != region implies #[trigger] after.listed(other)
        == partition.listed(other) by {
        if exists|at: int| after.listed_at(other, at) {
            let at = choose|at: int| after.listed_at(other, at);
            assert(partition.listed_at(other, at));
            let before = choose|at: int| partition.listed_at(other, at);
            assert(partition.keys()[before] == partition.keys()[at]);
        } else {
            assert forall|at: int| !partition.listed_at(other, at) by {
                if partition.listed_at(other, at) {
                    assert(after.listed_at(other, at));
                }
            }
        }
    }
}

/// Where no name is listed twice, each entry of the partition is what is
/// listed under its name.
pub proof fn lemma_listed_entry(partition: PartitionView, at: int)
    requires
        partition.keys().no_duplicates(),
        0 <= at < partition.endpoints.len(),
    ensures
        partition.listed(partition.endpoints[at].0) == Some(partition.endpoints[at].1),
{
    let region = partition.endpoints[at].0;
    assert(partition.listed_at(region, at));
    let chosen = choose|chosen: int| partition.listed_at(region, chosen);
    assert(partition.keys()[chosen] == partition.keys()[at]);
}

/// A name that no entry of the partition has is not listed.
pub proof fn lemma_not_listed(partition: PartitionView, region: Seq<char>)
    requires
        forall|at: int| 0 <= at < partition.endpoints.len() ==> partition.endpoints[at].0 != region,
    ensures
        partition.listed(region) is None,
{
}

/// The listed endpoints as plain values.
pub open spec fn entries(endpoints: Seq<(String, EndpointTemplate)>) -> Seq<
    (Seq<char>, TemplateView),
> {
    endpoints.map_values(|entry: (String, EndpointTemplate)| (entry.0@, entry.1@))
}

/// What a partition holds before it is validated.
#[derive(Debug)]
pub struct PartitionBuilder {
    id: String,
    region_pattern: String,
    home_region: Option<String>,
    regionalized: Regionalized,
    default_endpoint: EndpointTemplate,
    endpoints: Vec<(String, EndpointTemplate)>,
}

impl View for PartitionBuilder {
    type V = PartitionView;

    closed spec fn view(&self) -> PartitionView {
        PartitionView {
            id: self.id@,
            region_pattern: self.region_pattern@,
            home_region: match self.home_region {
                Some(home) => Some(home@),
                None => None,
            },
            regionalized: self.regionalized,
            default_endpoint: self.default_endpoint@,
            endpoints: entries(self.endpoints@),
        }
    }
}

impl PartitionBuilder {
    /// Says whether each region has an address of its own.
    pub fn regionalized(self, regionalized: Regionalized) -> (builder: Self)
        ensures
            builder@ == (PartitionView { regionalized, ..self@ }),
    {
        PartitionBuilder { regionalized, ..self }
    }

    /// Names the home region.
    pub fn home_region(self, region: &str) -> (builder: Self)
        ensures
            builder@ == (PartitionView { home_region: Some(region@), ..self@ }),
    {
        PartitionBuilder { home_region: Some(String::from_str(region)), ..self }
    }

    /// Lists `endpoint` under the name `region`, after those listed before.
    pub fn endpoint(self, region: &str, endpoint: EndpointTemplate) -> (builder: Self)
        ensures
            builder@ == self@.listing(region@, endpoint@),
    {
        let mut builder = self;
        let ghost before = builder.endpoints@;
        let ghost added = endpoint@;
        builder.endpoints.push((String::from_str(region), endpoint));
        proof {
            assert(entries(builder.endpoints@) =~= entries(before).push((region@, added)));
        }
        builder
    }

    /// Validates what was described: the pattern is compiled and the names of
    /// the listed endpoints are compared. A pattern that cannot be compiled
    /// is reported before a name that is listed twice.
    pub fn build(self) -> (built: Result<Partition, ConfigurationError>)
        ensures
            match built {
                Ok(partition) => self@.defect() is None && partition@ == self@,
                Err(error) => self@.defect() == Some(error),
            },
    {
        let compiled = match Pattern::compile(self.region_pattern.as_str()) {
            Some(compiled) => compiled,
            None => {
                return Err(ConfigurationError::InvalidPattern);
            },
        };
        let mut keys: Vec<String> = Vec::new();
        let mut at: usize = 0;
        while at < self.endpoints.len()
            invariant
                at <= self.endpoints.len(),
                keys.len() == at,
                forall|i: int| 0 <= i < at ==> keys[i]@ == self.endpoints[i].0@,
            decreases self.endpoints.len() - at,
        {
            keys.push(self.endpoints[at].0.clone());
            at += 1;
        }
        proof {
            assert(texts(keys@) =~= self@.keys());
        }
        if !all_distinct(&keys) {
            return Err(ConfigurationError::DuplicateEndpointKey);
        }
        Ok(
            Partition {
                id: self.id,
                region_pattern: self.region_pattern,
                compiled,
                home_region: self.home_region,
                regionalized: self.regionalized,
                default_endpoint: self.default_endpoint,
                endpoints: self.endpoints,
            },
        )
    }
}

/// A validated partition: its pattern is compiled, and no name is
/// listed twice.
#[derive(Debug)]
pub struct Partition {
    id: String,
    region_pattern: String,
    compiled: Pattern,
    home_region: Option<String>,
    regionalized: Regionalized,
    default_endpoint: EndpointTemplate,
    endpoints: Vec<(String, EndpointTemplate)>,
}

impl View for Partition {
    type V = PartitionView;

    closed spec fn view(&self) -> PartitionView {
        PartitionView {
            id: self.id@,
            region_pattern: self.region_pattern@,
            home_region: match self.home_region {
                Some(home) => Some(home@),
                None => None,
            },
            regionalized: self.regionalized,
            default_endpoint: self.default_endpoint@,
            endpoints: entries(self.endpoints@),
        }
    }
}

impl Partition {
    /// What holds of every partition: `compiled` is the pattern that
    /// `region_pattern` is the written form of, and no name is listed twice.
    #[verifier::type_invariant]
    pub closed spec fn valid(&self) -> bool {
        &&& parse_pattern(self.region_pattern@) == Some(self.compiled)
        &&& self@.keys().no_duplicates()
    }

    /// A valid partition is well formed.
    pub proof fn lemma_valid(self)
        requires
            self.valid(),
        ensures
            self@.well_formed(),
    {
    }

    /// Starts a partition with the id `id`, whose regions follow the pattern
    /// written as `region_pattern`. Each region has an address of its own,
    /// made from `default_endpoint`, until the builder is told otherwise.
    pub fn builder(id: &str, region_pattern: &str, default_endpoint: EndpointTemplate) -> (builder:
        PartitionBuilder)
        ensures
            builder@ == PartitionView::starting(id@, region_pattern@, default_endpoint@),
    {
        let builder = PartitionBuilder {
            id: String::from_str(id),
            region_pattern: String::from_str(region_pattern),
            home_region: None,
            regionalized: Regionalized::Regionalized,
            default_endpoint,
            endpoints: Vec::new(),
        };
        proof {
            assert(entries(builder.endpoints@) =~= Seq::empty());
        }
        builder
    }

    /// The partition's id.
    pub fn id(&self) -> (id: &str)
        ensures
            id@ == self@.id,
    {
        self.id.as_str()
    }

    /// The written form of the pattern that the partition's regions follow.
    pub fn region_pattern(&self) -> (pattern: &str)
        ensures
            pattern@ == self@.region_pattern,
    {
        self.region_pattern.as_str()
    }

    /// The pattern that the partition's regions follow, compiled when the
    /// partition was built.
    pub fn compiled_pattern(&self) -> (pattern: &Pattern)
        ensures
            parse_pattern(self@.region_pattern) == Some(*pattern),
            self@.well_formed(),
    {
        proof {
            use_type_invariant(self);
        }
        &self.compiled
    }

    /// Whether each region has an address of its own.
    pub fn regionalized(&self) -> (regionalized: Regionalized)
        ensures
            regionalized == self@.regionalized,
    {
        self.regionalized
    }

    /// The endpoint that regions without a listed endpoint get.
    pub fn default_endpoint(&self) -> (endpoint: &EndpointTemplate)
        ensures
            endpoint@ == self@.default_endpoint,
    {
        &self.default_endpoint
    }

    /// Tests whether the partition's pattern accepts `region`.
    pub fn can_resolve(&self, region: &str) -> (accepted: bool)
        ensures
            accepted == self@.can_resolve(region@),
    {
        proof {
            use_type_invariant(self);
        }
        self.compiled.is_match(region)
    }

    /// The template for `region`: the endpoint listed under that name, or
    /// else the default endpoint, with its address made out.
    pub fn select(&self, region: &str) -> (template: EndpointTemplate)
        ensures
            template@ == self@.select(region@),
    {
        proof {
            use_type_invariant(self);
        }
        let wanted = String::from_str(region);
        let mut at: usize = 0;
        while at < self.endpoints.len()
            invariant
                at <= self.endpoints.len(),
                wanted@ == region@,
                self@.keys().no_duplicates(),
                forall|i: int| 0 <= i < at ==> !self@.listed_at(region@, i),
            decreases self.endpoints.len() - at,
        {
            if self.endpoints[at].0 == wanted {
                proof {
                    assert(self@.listed_at(region@, at as int));
                    let chosen = choose|i: int| self@.listed_at(region@, i);
                    assert(self@.keys()[chosen] == self@.keys()[at as int]);
                }
                return self.endpoints[at].1.made_out(region);
            }
            at += 1;
        }
        match (self.regionalized, &self.home_region) {
            (Regionalized::NotRegionalized, Some(home)) => self.default_endpoint.made_out(
                home.as_str(),
            ),
            _ => self.default_endpoint.made_out(region),
        }
    }

    /// The endpoint that the partition gives for `region`.
    pub fn resolve(&self, region: &str) -> (endpoint: ResolvedEndpoint)
        ensures
            endpoint@ == self@.resolve(region@),
    {
        self.select(region).into_resolved(region)
    }
}

} // verus!
