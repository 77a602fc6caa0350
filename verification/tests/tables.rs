use s3_endpoint::endpoint::{
    CredentialScope, EndpointTemplate, Protocol, ResolvedEndpoint, SignatureVersion,
};
use s3_endpoint::partition::{ConfigurationError, Partition, Regionalized};
use s3_endpoint::pattern::Pattern;
use s3_endpoint::resolver::PartitionResolver;
use s3_endpoint::text::{all_distinct, chars_of, substitute};

fn template(uri: &str) -> EndpointTemplate {
    EndpointTemplate {
        uri_template: uri.to_string(),
        protocol: Protocol::Https,
        signature_versions: SignatureVersion::V4,
        credential_scope: CredentialScope::builder().build(),
    }
}

fn template_signing_as(uri: &str, region: &str) -> EndpointTemplate {
    EndpointTemplate {
        uri_template: uri.to_string(),
        protocol: Protocol::Http,
        signature_versions: SignatureVersion::V4,
        credential_scope: CredentialScope::builder().region(region).build(),
    }
}

fn partition(id: &str, pattern: &str) -> Partition {
    Partition::builder(id, pattern, template("svc.{region}.example.com"))
        .build()
        .unwrap()
}

#[test]
fn substitution_replaces_each_placeholder() {
    assert_eq!(substitute("s3.{region}.amazonaws.com", "us-west-2"), "s3.us-west-2.amazonaws.com");
    assert_eq!(substitute("{region}", "x"), "x");
    assert_eq!(substitute("{region}{region}", "ab"), "abab");
    assert_eq!(substitute("a.{region}.b.{region}.c", "r"), "a.r.b.r.c");
    assert_eq!(substitute("{region}.tail", ""), ".tail");
    assert_eq!(substitute("head.{region}", "r1"), "head.r1");
}

#[test]
fn substitution_keeps_what_is_no_placeholder() {
    assert_eq!(substitute("s3.amazonaws.com", "us-west-2"), "s3.amazonaws.com");
    assert_eq!(substitute("", "us-west-2"), "");
    assert_eq!(substitute("{regio}", "r"), "{regio}");
    assert_eq!(substitute("{region", "r"), "{region");
    assert_eq!(substitute("region}", "r"), "region}");
    assert_eq!(substitute("{Region}", "r"), "{Region}");
    assert_eq!(substitute("{{region}}", "r"), "{r}");
    assert_eq!(substitute("{reg{region}ion}", "r"), "{regrion}");
    assert_eq!(substitute("h\u{f4}te.{region}", "r\u{e9}"), "h\u{f4}te.r\u{e9}");
}

#[test]
fn substitution_does_not_read_the_region_again() {
    assert_eq!(substitute("a.{region}.b", "{region}"), "a.{region}.b");
    assert_eq!(substitute("{region}region}", "{"), "{region}");
}

#[test]
fn characters_are_read_in_order() {
    assert_eq!(chars_of("us-1"), vec!['u', 's', '-', '1']);
    assert_eq!(chars_of(""), Vec::<char>::new());
    assert_eq!(chars_of("\u{e9}a"), vec!['\u{e9}', 'a']);
}

#[test]
fn distinct_names_are_told_from_repeated_ones() {
    let names = |list: &[&str]| list.iter().map(|name| name.to_string()).collect::<Vec<_>>();
    assert!(all_distinct(&names(&[])));
    assert!(all_distinct(&names(&["a"])));
    assert!(all_distinct(&names(&["a", "b", "ab", ""])));
    assert!(!all_distinct(&names(&["a", "b", "a"])));
    assert!(!all_distinct(&names(&["a", "a"])));
    assert!(!all_distinct(&names(&["x", "y", "z", "z"])));
}

#[test]
fn credential_scope_is_built_as_described() {
    assert_eq!(CredentialScope::builder().build().region, None);
    assert_eq!(
        CredentialScope::builder().region("us-east-1").build().region,
        Some("us-east-1".to_string())
    );
    assert_eq!(
        CredentialScope::builder().region("a").region("b").build().region,
        Some("b".to_string())
    );
    let scope = CredentialScope::builder().region("eu-west-1").build();
    assert_eq!(scope.clone(), scope);
}

#[test]
fn signing_region_is_the_override_or_the_request() {
    assert_eq!(template("x").resolve_signing_region("eu-west-1"), "eu-west-1");
    assert_eq!(
        template_signing_as("x", "us-east-1").resolve_signing_region("eu-west-1"),
        "us-east-1"
    );
    assert_eq!(template("x").resolve_signing_region(""), "");
}

#[test]
fn template_becomes_endpoint_as_it_stands() {
    let endpoint = template_signing_as("h.{region}.example", "us-east-1").into_resolved("eu-west-1");
    assert_eq!(
        endpoint,
        ResolvedEndpoint {
            uri: "h.{region}.example".to_string(),
            protocol: Protocol::Http,
            signature_versions: SignatureVersion::V4,
            signing_region: "us-east-1".to_string(),
        }
    );
    let copy = template_signing_as("a", "b").clone();
    assert_eq!(copy, template_signing_as("a", "b"));
    assert_eq!(endpoint.clone(), endpoint);
}

#[test]
fn builder_keeps_what_it_was_told() {
    let built = Partition::builder("p", "^x\\d$", template_signing_as("d.{region}", "home"))
        .regionalized(Regionalized::NotRegionalized)
        .endpoint("x1", template("one"))
        .build()
        .unwrap();
    assert_eq!(built.id(), "p");
    assert_eq!(built.region_pattern(), "^x\\d$");
    assert_eq!(built.regionalized(), Regionalized::NotRegionalized);
    assert_eq!(built.default_endpoint(), &template_signing_as("d.{region}", "home"));
    assert_eq!(Some(built.compiled_pattern()), Pattern::compile("^x\\d$").as_ref());
    assert!(built.compiled_pattern().is_match("x7"));
    let plain = partition("q", "a");
    assert_eq!(plain.regionalized(), Regionalized::Regionalized);
}

#[test]
fn partition_with_bad_pattern_is_refused() {
    for pattern in ["(", "a{2}", "\\q", "[z-a]", "*"] {
        let built = Partition::builder("p", pattern, template("x")).build();
        assert_eq!(built.err(), Some(ConfigurationError::InvalidPattern));
    }
}

#[test]
fn partition_with_repeated_name_is_refused() {
    let built = Partition::builder("p", "a", template("x"))
        .endpoint("r1", template("one"))
        .endpoint("r2", template("two"))
        .endpoint("r1", template("three"))
        .build();
    assert_eq!(built.err(), Some(ConfigurationError::DuplicateEndpointKey));
    let same_endpoint = Partition::builder("p", "a", template("x"))
        .endpoint("r1", template("one"))
        .endpoint("r1", template("one"))
        .build();
    assert_eq!(same_endpoint.err(), Some(ConfigurationError::DuplicateEndpointKey));
}

#[test]
fn bad_pattern_is_reported_before_repeated_name() {
    let built = Partition::builder("p", "(", template("x"))
        .endpoint("r1", template("one"))
        .endpoint("r1", template("two"))
        .build();
    assert_eq!(built.err(), Some(ConfigurationError::InvalidPattern));
}

#[test]
fn partition_with_distinct_names_is_accepted() {
    let built = Partition::builder("p", "a", template("x"))
        .endpoint("r1", template("one"))
        .endpoint("R1", template("one"))
        .endpoint("r1 ", template("one"))
        .endpoint("", template("one"))
        .build();
    assert!(built.is_ok());
}

#[test]
fn table_with_repeated_id_is_refused() {
    let made = PartitionResolver::new(
        partition("a", "x"),
        vec![partition("b", "y"), partition("a", "z")],
    );
    assert_eq!(made.err(), Some(ConfigurationError::DuplicatePartitionId));
    let made = PartitionResolver::new(partition("a", "x"), vec![partition("a", "x")]);
    assert_eq!(made.err(), Some(ConfigurationError::DuplicatePartitionId));
    let made = PartitionResolver::new(
        partition("a", "x"),
        vec![partition("b", "y"), partition("b", "y")],
    );
    assert_eq!(made.err(), Some(ConfigurationError::DuplicatePartitionId));
}

#[test]
fn table_with_distinct_ids_is_accepted() {
    assert!(PartitionResolver::new(partition("a", "x"), vec![]).is_ok());
    let made = PartitionResolver::new(
        partition("a", "x"),
        vec![partition("b", "x"), partition("c", "x")],
    )
    .unwrap();
    assert_eq!(made.partitions().len(), 3);
}

#[test]
fn first_accepting_partition_is_picked() {
    let table = PartitionResolver::new(
        partition("first", "a\\d"),
        vec![partition("second", "b\\d"), partition("third", "[ab]\\d"), partition("last", ".*")],
    )
    .unwrap();
    assert_eq!(table.matching_partition("a1").id(), "first");
    assert_eq!(table.matching_partition("b1").id(), "second");
    assert_eq!(table.matching_partition("c1").id(), "last");
    let narrow = PartitionResolver::new(
        partition("first", "a\\d"),
        vec![partition("second", "b\\d"), partition("third", "[ab]\\d\\d")],
    )
    .unwrap();
    assert_eq!(narrow.matching_partition("a11").id(), "third");
    assert_eq!(narrow.matching_partition("c1").id(), "first");
    assert_eq!(narrow.matching_partition("").id(), "first");
    assert_eq!(narrow.resolve("c1").uri, "svc.c1.example.com");
}

#[test]
fn listed_endpoint_wins_over_default() {
    let built = Partition::builder("p", ".*", template("svc.{region}.example.com"))
        .endpoint("global", template_signing_as("svc.example.com", "r-1"))
        .endpoint("odd", template("svc.{region}.odd"))
        .build()
        .unwrap();
    assert_eq!(built.select("global"), template_signing_as("svc.example.com", "r-1"));
    assert_eq!(built.select("odd"), template("svc.odd.odd"));
    assert_eq!(built.resolve("odd").uri, "svc.odd.odd");
    assert_eq!(built.select("r-2"), template("svc.r-2.example.com"));
    let endpoint = built.resolve("global");
    assert_eq!(endpoint.uri, "svc.example.com");
    assert_eq!(endpoint.protocol, Protocol::Http);
    assert_eq!(endpoint.signing_region, "r-1");
    assert_eq!(built.resolve("r-2").signing_region, "r-2");
    assert_eq!(built.resolve("r-2").protocol, Protocol::Https);
}

#[test]
fn default_scope_is_kept_when_address_is_made_out() {
    let built = Partition::builder("p", ".*", template_signing_as("svc.{region}.example", "r-1"))
        .build()
        .unwrap();
    assert_eq!(built.select("r-9"), template_signing_as("svc.r-9.example", "r-1"));
    assert_eq!(built.resolve("r-9").signing_region, "r-1");
}

#[test]
fn single_address_partition_uses_home_region() {
    let built = Partition::builder("p", ".*", template("svc.{region}.example.com"))
        .regionalized(Regionalized::NotRegionalized)
        .home_region("home-1")
        .endpoint("listed", template("listed.example.com"))
        .build()
        .unwrap();
    assert_eq!(built.resolve("r-2").uri, "svc.home-1.example.com");
    assert_eq!(built.resolve("r-2").signing_region, "r-2");
    assert_eq!(built.resolve("listed").uri, "listed.example.com");
    let global = Partition::builder("p", ".*", template("svc.example.com"))
        .regionalized(Regionalized::NotRegionalized)
        .home_region("home-1")
        .build()
        .unwrap();
    assert_eq!(global.resolve("r-2").uri, "svc.example.com");
}

#[test]
fn single_address_partition_without_home_region_uses_requested_region() {
    let built = Partition::builder("p", ".*", template("svc.{region}.example.com"))
        .regionalized(Regionalized::NotRegionalized)
        .build()
        .unwrap();
    assert_eq!(built.resolve("r-2").uri, "svc.r-2.example.com");
    assert_eq!(built.resolve("r-2").signing_region, "r-2");
    let plain = Partition::builder("p", ".*", template("svc.example.com"))
        .regionalized(Regionalized::NotRegionalized)
        .build()
        .unwrap();
    assert_eq!(plain.resolve("r-2").uri, "svc.example.com");
}

#[test]
fn listed_endpoint_of_single_address_partition_uses_requested_region() {
    let built = Partition::builder("p", ".*", template("svc.{region}.example.com"))
        .regionalized(Regionalized::NotRegionalized)
        .home_region("home-1")
        .endpoint("r-3", template_signing_as("listed.{region}.example.com", "home-1"))
        .build()
        .unwrap();
    assert_eq!(built.resolve("r-3").uri, "listed.r-3.example.com");
    assert_eq!(built.resolve("r-3").signing_region, "home-1");
    assert_eq!(built.resolve("r-4").uri, "svc.home-1.example.com");
}

#[test]
fn template_is_made_out_for_a_region() {
    let made = template_signing_as("h.{region}.x.{region}", "scope").made_out("r-1");
    assert_eq!(made, template_signing_as("h.r-1.x.r-1", "scope"));
    assert_eq!(template("plain.example").made_out("r-1"), template("plain.example"));
    assert_eq!(template("{region}").made_out(""), template(""));
}

#[test]
fn home_region_is_not_used_where_regions_have_addresses() {
    let built = Partition::builder("p", ".*", template("svc.{region}.example.com"))
        .home_region("home-1")
        .build()
        .unwrap();
    assert_eq!(built.resolve("r-2").uri, "svc.r-2.example.com");
}

#[test]
fn partition_tests_regions_against_its_pattern() {
    let built = partition("p", "^(us|eu)\\-\\w+\\-\\d+$");
    assert!(built.can_resolve("us-east-1"));
    assert!(!built.can_resolve("cn-north-1"));
    assert!(!built.can_resolve("us-east-1x"));
}

#[test]
fn region_without_listed_endpoint_gets_address_with_its_name() {
    let built = Partition::builder(
        "aws",
        "^(us|eu|ap|sa|ca|me|af)\\-\\w+\\-\\d+$",
        template("s3.{region}.amazonaws.com"),
    )
    .regionalized(Regionalized::Regionalized)
    .endpoint("us-east-1", template("s3.amazonaws.com"))
    .build()
    .unwrap();
    let table = PartitionResolver::new(built, vec![]).unwrap();
    let endpoint = table.resolve("us-west-2");
    assert_eq!(endpoint.uri, "s3.us-west-2.amazonaws.com");
    assert_eq!(endpoint.signing_region, "us-west-2");
    assert_eq!(table.resolve("us-east-1").uri, "s3.amazonaws.com");
}
