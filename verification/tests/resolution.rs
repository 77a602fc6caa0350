use s3_endpoint::endpoint::{Protocol, ResolvedEndpoint, SignatureVersion};
use s3_endpoint::endpoint_resolver;

fn resolved(uri: &str, signing_region: &str) -> ResolvedEndpoint {
    ResolvedEndpoint {
        uri: uri.to_string(),
        protocol: Protocol::Https,
        signature_versions: SignatureVersion::V4,
        signing_region: signing_region.to_string(),
    }
}

#[test]
fn substitutes_region_into_default_template() {
    let resolver = endpoint_resolver();
    let endpoint = resolver.resolve("us-west-2");
    assert_eq!(endpoint.uri, "s3.us-west-2.amazonaws.com");
    assert_eq!(endpoint.signing_region, "us-west-2");
    assert_eq!(endpoint.protocol, Protocol::Https);
    assert_eq!(endpoint.signature_versions, SignatureVersion::V4);
}

#[test]
fn unlisted_standard_region_uses_default_template() {
    let resolver = endpoint_resolver();
    assert_eq!(
        resolver.resolve("ap-south-1"),
        resolved("s3.ap-south-1.amazonaws.com", "ap-south-1")
    );
    assert_eq!(
        resolver.resolve("me-south-1"),
        resolved("s3.me-south-1.amazonaws.com", "me-south-1")
    );
}

#[test]
fn global_alias_resolves_to_listed_endpoint() {
    let resolver = endpoint_resolver();
    let endpoint = resolver.resolve("aws-global");
    assert_eq!(endpoint.uri, "s3.amazonaws.com");
    assert_ne!(endpoint.uri, "s3.aws-global.amazonaws.com");
    assert_eq!(endpoint.signing_region, "us-east-1");
}

#[test]
fn legacy_external_endpoint_signs_as_us_east_1() {
    let resolver = endpoint_resolver();
    let endpoint = resolver.resolve("s3-external-1");
    assert_eq!(endpoint.uri, "s3-external-1.amazonaws.com");
    assert_eq!(endpoint.signing_region, "us-east-1");
}

#[test]
fn unknown_geography_falls_back_to_standard_partition() {
    let resolver = endpoint_resolver();
    assert_eq!(resolver.matching_partition("xx-test-1").id(), "aws");
    assert_eq!(
        resolver.resolve("xx-test-1"),
        resolved("s3.xx-test-1.amazonaws.com", "xx-test-1")
    );
}

#[test]
fn standard_regions_select_standard_partition() {
    let resolver = endpoint_resolver();
    for region in [
        "us-east-1",
        "eu-west-1",
        "ap-northeast-1",
        "sa-east-1",
        "ca-central-1",
        "me-south-1",
        "af-south-1",
    ] {
        let partition = resolver.matching_partition(region);
        assert!(partition.can_resolve(region));
        assert_eq!(partition.id(), "aws");
    }
}

#[test]
fn other_partitions_are_selected_by_their_patterns() {
    let resolver = endpoint_resolver();
    assert_eq!(resolver.matching_partition("cn-north-1").id(), "aws-cn");
    assert_eq!(resolver.matching_partition("us-iso-east-1").id(), "aws-iso");
    assert_eq!(resolver.matching_partition("us-isob-east-1").id(), "aws-iso-b");
    assert_eq!(resolver.matching_partition("us-gov-west-1").id(), "aws-us-gov");
}

#[test]
fn at_most_one_pattern_accepts_a_region() {
    let resolver = endpoint_resolver();
    for region in [
        "us-east-1",
        "eu-west-1",
        "cn-north-1",
        "cn-northwest-1",
        "us-iso-east-1",
        "us-isob-east-1",
        "us-gov-east-1",
        "us-gov-west-1",
        "aws-global",
        "xx-test-1",
    ] {
        let accepting = resolver
            .partitions()
            .iter()
            .filter(|partition| partition.can_resolve(region))
            .count();
        assert!(accepting <= 1, "{} is accepted {} times", region, accepting);
    }
}

#[test]
fn china_regions_use_their_own_domain() {
    let resolver = endpoint_resolver();
    assert_eq!(
        resolver.resolve("cn-north-1"),
        resolved("s3.cn-north-1.amazonaws.com.cn", "cn-north-1")
    );
}

#[test]
fn isolated_regions_use_their_own_domains() {
    let resolver = endpoint_resolver();
    assert_eq!(
        resolver.resolve("us-iso-west-1"),
        resolved("s3.us-iso-west-1.c2s.ic.gov", "us-iso-west-1")
    );
    assert_eq!(
        resolver.resolve("us-isob-east-1"),
        resolved("s3.us-isob-east-1.sc2s.sgov.gov", "us-isob-east-1")
    );
}

#[test]
fn listed_region_has_its_name_written_into_the_address() {
    let resolver = endpoint_resolver();
    assert_eq!(
        resolver.resolve("us-iso-east-1"),
        resolved("s3.us-iso-east-1.c2s.ic.gov", "us-iso-east-1")
    );
    assert_eq!(
        resolver.resolve("us-gov-west-1"),
        resolved("s3.us-gov-west-1.amazonaws.com", "us-gov-west-1")
    );
    assert_eq!(
        resolver.resolve("us-gov-east-1"),
        resolved("s3.us-gov-east-1.amazonaws.com", "us-gov-east-1")
    );
}

fn is_area_and_number(parts: &[&str]) -> bool {
    parts.len() == 2
        && !parts[0].is_empty()
        && parts[0].chars().all(|c| c.is_ascii_alphanumeric() || c == '_')
        && !parts[1].is_empty()
        && parts[1].chars().all(|c| c.is_ascii_digit())
}

fn domain_of(region: &str) -> &'static str {
    let parts: Vec<&str> = region.split('-').collect();
    if parts.len() == 3 && parts[0] == "cn" && is_area_and_number(&parts[1..]) {
        ".amazonaws.com.cn"
    } else if parts.len() == 4
        && parts[0] == "us"
        && parts[1] == "iso"
        && is_area_and_number(&parts[2..])
    {
        ".c2s.ic.gov"
    } else if parts.len() == 4
        && parts[0] == "us"
        && parts[1] == "isob"
        && is_area_and_number(&parts[2..])
    {
        ".sc2s.sgov.gov"
    } else {
        ".amazonaws.com"
    }
}

fn has_family_address(region: &str) {
    let endpoint = endpoint_resolver().resolve(region);
    assert_eq!(endpoint.uri, format!("s3.{}{}", region, domain_of(region)), "for {:?}", region);
    assert_eq!(endpoint.signing_region, region);
    assert_eq!(endpoint.protocol, Protocol::Https);
    assert_eq!(endpoint.signature_versions, SignatureVersion::V4);
    assert!(!endpoint.uri.contains("{region}"), "placeholder left for {:?}", region);
}

#[test]
fn every_name_but_two_aliases_gets_the_address_of_its_family() {
    for region in [
        "ap-northeast-1",
        "ap-southeast-1",
        "ap-southeast-2",
        "eu-west-1",
        "sa-east-1",
        "us-east-1",
        "us-west-1",
        "us-west-2",
        "us-iso-east-1",
        "us-iso-west-1",
        "us-isob-east-1",
        "us-gov-east-1",
        "us-gov-west-1",
        "us-gov-north-7",
        "fips-us-gov-west-1",
        "cn-north-1",
        "cn-northwest-1",
        "cn-a_b-007",
        "ca-central-1",
        "me-south-1",
        "af-south-1",
        "xx-test-1",
        "us-iso-east-1a",
        "us-iso--1",
        "us-isoc-east-1",
        "cn-north-",
        "cn--1",
        "CN-north-1",
        "us-iso-east-1 ",
        " us-iso-east-1",
        "us-iso-e\u{e9}st-1",
        "aws-globa",
        "aws-global-1",
        "s3-external-2",
        "x",
        "region",
    ] {
        has_family_address(region);
    }
}

#[test]
fn family_address_holds_of_generated_names() {
    let families = [
        "us", "eu", "cn", "us-iso", "us-isob", "us-gov", "xx", "c", "us-is", "fips-us-gov",
    ];
    let areas = ["east", "west", "n", "north_2", "", "a-b", "Ost", "e st"];
    let numbers = ["1", "22", "007", "", "1a", "-1"];
    for family in families {
        for area in areas {
            for number in numbers {
                has_family_address(&format!("{}-{}-{}", family, area, number));
            }
        }
    }
}

#[test]
fn name_listed_in_a_partition_that_does_not_accept_it_falls_back() {
    let resolver = endpoint_resolver();
    assert_eq!(resolver.matching_partition("fips-us-gov-west-1").id(), "aws");
    assert_eq!(
        resolver.resolve("fips-us-gov-west-1"),
        resolved("s3.fips-us-gov-west-1.amazonaws.com", "fips-us-gov-west-1")
    );
}

#[test]
fn resolution_is_total_on_printable_ascii() {
    let resolver = endpoint_resolver();
    let printable: Vec<char> = (0x20u8..=0x7e).map(char::from).collect();
    for first in &printable {
        let one = first.to_string();
        let endpoint = resolver.resolve(&one);
        assert_eq!(endpoint.uri, format!("s3.{}.amazonaws.com", one));
        assert_eq!(endpoint.signing_region, one);
        for second in &printable {
            let two = format!("{}{}", first, second);
            let endpoint = resolver.resolve(&two);
            assert_eq!(endpoint.uri, format!("s3.{}.amazonaws.com", two));
        }
    }
    for region in ["-", "--", "us--1", "us-east-", "-east-1", "{region}", "us east 1", "^$"] {
        let endpoint = resolver.resolve(region);
        assert_eq!(endpoint.signing_region, region);
    }
}

#[test]
fn resolution_is_total_on_other_strings() {
    let resolver = endpoint_resolver();
    assert_eq!(resolver.resolve(""), resolved("s3..amazonaws.com", ""));
    let long = "us-".to_string() + &"a".repeat(300) + "-1";
    assert_eq!(
        resolver.resolve(&long).uri,
        format!("s3.{}.amazonaws.com", long)
    );
    assert_eq!(resolver.matching_partition(&long).id(), "aws");
    let endpoint = resolver.resolve("eu-w\u{e9}st-1");
    assert_eq!(endpoint.uri, "s3.eu-w\u{e9}st-1.amazonaws.com");
}

#[test]
fn resolution_is_deterministic() {
    let resolver = endpoint_resolver();
    let again = endpoint_resolver();
    for region in ["us-east-1", "aws-global", "cn-north-1", "xx-test-1", "s3-external-1", ""] {
        let first = resolver.resolve(region);
        assert_eq!(first, resolver.resolve(region));
        assert_eq!(first, again.resolve(region));
    }
}

#[test]
fn table_lists_partitions_in_order() {
    let resolver = endpoint_resolver();
    let ids: Vec<&str> = resolver.partitions().iter().map(|partition| partition.id()).collect();
    assert_eq!(ids, vec!["aws", "aws-cn", "aws-iso", "aws-iso-b", "aws-us-gov"]);
    let standard = &resolver.partitions()[0];
    assert_eq!(standard.region_pattern(), "^(us|eu|ap|sa|ca|me|af)\\-\\w+\\-\\d+$");
    assert_eq!(standard.default_endpoint().uri_template, "s3.{region}.amazonaws.com");
}
