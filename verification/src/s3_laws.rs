//! What holds of resolution against the table of the storage service.

use vstd::prelude::*;
use crate::endpoint::{Protocol, ResolvedView, SignatureVersion};
use crate::laws::{
    lemma_first_match_is_picked, lemma_first_partition_wins, lemma_substituted_between,
    lemma_substituted_plain, lemma_unmatched_falls_back,
};
use crate::partition::{lemma_listed_entry, lemma_not_listed};
use crate::s3::{
    china_partition, https_v4, iso_b_partition, iso_partition, lemma_iso_partition,
    lemma_standard_partition, lemma_us_gov_partition, s3_table, standard_partition,
    us_gov_partition,
};
use crate::s3_patterns::{
    area_and_number_at, lemma_china_pattern, lemma_china_regions, lemma_families_apart,
    lemma_iso_b_pattern, lemma_iso_b_regions, lemma_iso_pattern, lemma_iso_regions,
    lemma_region_letters, lemma_standard_pattern, lemma_standard_regions, lemma_us_gov_pattern,
    lemma_us_gov_regions, region_of, standard_region,
};
use crate::text::placeholder;

verus! {

/// Which regions the partitions of the storage service's table accept:
/// each the regions of its own family, and the standard partition those of
/// its geographies.
pub proof fn lemma_s3_accepts(region: Seq<char>)
    ensures
        s3_table().partitions.len() == 5,
        s3_table().matches_at(region, 0) <==> standard_region(region),
        s3_table().matches_at(region, 1) <==> region_of(region, "cn"@),
        s3_table().matches_at(region, 2) <==> region_of(region, "us-iso"@),
        s3_table().matches_at(region, 3) <==> region_of(region, "us-isob"@),
        s3_table().matches_at(region, 4) <==> region_of(region, "us-gov"@),
{
    lemma_standard_pattern();
    lemma_china_pattern();
    lemma_iso_pattern();
    lemma_iso_b_pattern();
    lemma_us_gov_pattern();
    lemma_standard_regions(region);
    lemma_china_regions(region);
    lemma_iso_regions(region);
    lemma_iso_b_regions(region);
    lemma_us_gov_regions(region);
    let table = s3_table();
    assert(table.partitions[0] == standard_partition());
    assert(table.partitions[1] == china_partition());
    assert(table.partitions[2] == iso_partition());
    assert(table.partitions[3] == iso_b_partition());
    assert(table.partitions[4] == us_gov_partition());
}

/// The patterns of the storage service's table are disjoint: no region is
/// accepted by the patterns of two partitions.
pub proof fn lemma_s3_patterns_are_disjoint(region: Seq<char>, at: int, other: int)
    requires
        s3_table().matches_at(region, at),
        s3_table().matches_at(region, other),
    ensures
        at == other,
{
    lemma_s3_accepts(region);
    lemma_families_apart(region);
}

/// The partition of the storage service's table that a region is resolved
/// in: the one of its family, and the standard partition for a region of
/// the standard geographies and for a region of no family.
pub proof fn lemma_s3_matching(region: Seq<char>)
    ensures
        s3_table().matching(region) == if region_of(region, "cn"@) {
            1int
        } else if region_of(region, "us-iso"@) {
            2int
        } else if region_of(region, "us-isob"@) {
            3int
        } else if region_of(region, "us-gov"@) {
            4int
        } else {
            0int
        },
{
    lemma_s3_accepts(region);
    lemma_families_apart(region);
    let table = s3_table();
    if region_of(region, "cn"@) {
        lemma_first_match_is_picked(table, region, 1);
    } else if region_of(region, "us-iso"@) {
        lemma_first_match_is_picked(table, region, 2);
    } else if region_of(region, "us-isob"@) {
        lemma_first_match_is_picked(table, region, 3);
    } else if region_of(region, "us-gov"@) {
        lemma_first_match_is_picked(table, region, 4);
    } else if standard_region(region) {
        lemma_first_partition_wins(table, region);
    } else {
        lemma_unmatched_falls_back(table, region);
    }
}

/// A region of the standard geographies is resolved in the standard
/// partition of the storage service, and no other partition accepts it.
pub proof fn lemma_standard_regions_stay_standard(region: Seq<char>)
    requires
        standard_region(region),
    ensures
        s3_table().matching(region) == 0,
        forall|at: int| at != 0 ==> !s3_table().matches_at(region, at),
        s3_table().resolve(region) == standard_partition().resolve(region),
{
    lemma_s3_accepts(region);
    lemma_families_apart(region);
    lemma_first_partition_wins(s3_table(), region);
}

/// A region of no family is resolved in the standard partition of the
/// storage service.
pub proof fn lemma_unknown_regions_are_standard(region: Seq<char>)
    requires
        !standard_region(region),
        !region_of(region, "cn"@),
        !region_of(region, "us-iso"@),
        !region_of(region, "us-isob"@),
        !region_of(region, "us-gov"@),
    ensures
        forall|at: int| !s3_table().matches_at(region, at),
        s3_table().matching(region) == 0,
        s3_table().resolve(region) == standard_partition().resolve(region),
{
    lemma_s3_accepts(region);
    lemma_unmatched_falls_back(s3_table(), region);
}

/// No name that starts with another letter than `c` or `u` names a region
/// of the families `cn`, `us-iso`, `us-isob` and `us-gov`: it is resolved in
/// the standard partition of the storage service.
pub proof fn lemma_other_letters_are_standard(region: Seq<char>)
    requires
        region.len() > 0,
        region[0] != 'c',
        region[0] != 'u',
    ensures
        s3_table().matching(region) == 0,
{
    reveal_strlit("cn");
    reveal_strlit("us-iso");
    reveal_strlit("us-isob");
    reveal_strlit("us-gov");
    if region_of(region, "cn"@) {
        lemma_region_letters(region, "cn"@, 0);
    }
    if region_of(region, "us-iso"@) {
        lemma_region_letters(region, "us-iso"@, 0);
    }
    if region_of(region, "us-isob"@) {
        lemma_region_letters(region, "us-isob"@, 0);
    }
    if region_of(region, "us-gov"@) {
        lemma_region_letters(region, "us-gov"@, 0);
    }
    lemma_s3_matching(region);
}

/// The domain of the addresses of the partition that `region` is resolved
/// in.
pub open spec fn s3_domain(region: Seq<char>) -> Seq<char> {
    if region_of(region, "cn"@) {
        ".amazonaws.com.cn"@
    } else if region_of(region, "us-iso"@) {
        ".c2s.ic.gov"@
    } else if region_of(region, "us-isob"@) {
        ".sc2s.sgov.gov"@
    } else {
        ".amazonaws.com"@
    }
}

/// The domain of the addresses of the partition at `place` of the table.
pub open spec fn s3_domain_at(place: int) -> Seq<char> {
    if place == 1 {
        ".amazonaws.com.cn"@
    } else if place == 2 {
        ".c2s.ic.gov"@
    } else if place == 3 {
        ".sc2s.sgov.gov"@
    } else {
        ".amazonaws.com"@
    }
}

/// The endpoint at `s3.`, the region and `domain`, which is reached over
/// HTTPS, takes signatures of version 4 and is signed for as the region.
pub open spec fn s3_endpoint(region: Seq<char>, domain: Seq<char>) -> ResolvedView {
    ResolvedView {
        uri: "s3."@ + region + domain,
        protocol: Protocol::Https,
        signature_versions: SignatureVersion::V4,
        signing_region: region,
    }
}

/// A template whose address is `s3.`, a placeholder and a domain without
/// an opening brace, made out for a region, has the address of `s3.`, the
/// region and the domain.
proof fn lemma_default_address(address: Seq<char>, domain: Seq<char>, region: Seq<char>)
    requires
        address == "s3."@ + placeholder() + domain,
        !domain.contains('{'),
    ensures
        https_v4(address).made_out(region) == https_v4("s3."@ + region + domain),
{
    reveal_strlit("s3.");
    lemma_substituted_between("s3."@, domain, region);
}

/// A template that is listed under a name with the address of `s3.`, the
/// name and a domain, made out for that name, has that address.
proof fn lemma_named_address(address: Seq<char>, name: Seq<char>, domain: Seq<char>)
    requires
        address == "s3."@ + name + domain,
        !name.contains('{'),
        !domain.contains('{'),
    ensures
        https_v4(address).made_out(name) == https_v4("s3."@ + name + domain),
{
    reveal_strlit("s3.");
    assert forall|at: int| 0 <= at < address.len() implies address[at] != '{' by {
        if at < 3 {
            assert(address[at] == "s3."@[at]);
        } else if at < 3 + name.len() {
            assert(name.contains(address[at])) by {
                assert(address[at] == name[at - 3]);
            }
        } else {
            assert(domain.contains(address[at])) by {
                assert(address[at] == domain[at - 3 - name.len()]);
            }
        }
    }
    lemma_substituted_plain(address, name);
}

/// The addresses that the table lists for regions by their own names are
/// made of `s3.`, the name and `.amazonaws.com`, and no name holds an
/// opening brace.
proof fn lemma_listed_addresses()
    ensures
        "s3.ap-northeast-1.amazonaws.com"@ == "s3."@ + "ap-northeast-1"@ + ".amazonaws.com"@,
        !"ap-northeast-1"@.contains('{'),
        "s3.ap-southeast-1.amazonaws.com"@ == "s3."@ + "ap-southeast-1"@ + ".amazonaws.com"@,
        !"ap-southeast-1"@.contains('{'),
        "s3.ap-southeast-2.amazonaws.com"@ == "s3."@ + "ap-southeast-2"@ + ".amazonaws.com"@,
        !"ap-southeast-2"@.contains('{'),
        "s3.eu-west-1.amazonaws.com"@ == "s3."@ + "eu-west-1"@ + ".amazonaws.com"@,
        !"eu-west-1"@.contains('{'),
        "s3.sa-east-1.amazonaws.com"@ == "s3."@ + "sa-east-1"@ + ".amazonaws.com"@,
        !"sa-east-1"@.contains('{'),
        "s3.us-east-1.amazonaws.com"@ == "s3."@ + "us-east-1"@ + ".amazonaws.com"@,
        !"us-east-1"@.contains('{'),
        "s3.us-west-1.amazonaws.com"@ == "s3."@ + "us-west-1"@ + ".amazonaws.com"@,
        !"us-west-1"@.contains('{'),
        "s3.us-west-2.amazonaws.com"@ == "s3."@ + "us-west-2"@ + ".amazonaws.com"@,
        !"us-west-2"@.contains('{'),
        "s3.us-gov-east-1.amazonaws.com"@ == "s3."@ + "us-gov-east-1"@ + ".amazonaws.com"@,
        !"us-gov-east-1"@.contains('{'),
        "s3.us-gov-west-1.amazonaws.com"@ == "s3."@ + "us-gov-west-1"@ + ".amazonaws.com"@,
        !"us-gov-west-1"@.contains('{'),
        !".amazonaws.com"@.contains('{'),
{
    reveal_strlit("s3.");
    reveal_strlit(".amazonaws.com");
    reveal_strlit("ap-northeast-1");
    reveal_strlit("s3.ap-northeast-1.amazonaws.com");
    assert("s3.ap-northeast-1.amazonaws.com"@ =~= "s3."@ + "ap-northeast-1"@ + ".amazonaws.com"@);
    reveal_strlit("ap-southeast-1");
    reveal_strlit("s3.ap-southeast-1.amazonaws.com");
    assert("s3.ap-southeast-1.amazonaws.com"@ =~= "s3."@ + "ap-southeast-1"@ + ".amazonaws.com"@);
    reveal_strlit("ap-southeast-2");
    reveal_strlit("s3.ap-southeast-2.amazonaws.com");
    assert("s3.ap-southeast-2.amazonaws.com"@ =~= "s3."@ + "ap-southeast-2"@ + ".amazonaws.com"@);
    reveal_strlit("eu-west-1");
    reveal_strlit("s3.eu-west-1.amazonaws.com");
    assert("s3.eu-west-1.amazonaws.com"@ =~= "s3."@ + "eu-west-1"@ + ".amazonaws.com"@);
    reveal_strlit("sa-east-1");
    reveal_strlit("s3.sa-east-1.amazonaws.com");
    assert("s3.sa-east-1.amazonaws.com"@ =~= "s3."@ + "sa-east-1"@ + ".amazonaws.com"@);
    reveal_strlit("us-east-1");
    reveal_strlit("s3.us-east-1.amazonaws.com");
    assert("s3.us-east-1.amazonaws.com"@ =~= "s3."@ + "us-east-1"@ + ".amazonaws.com"@);
    reveal_strlit("us-west-1");
    reveal_strlit("s3.us-west-1.amazonaws.com");
    assert("s3.us-west-1.amazonaws.com"@ =~= "s3."@ + "us-west-1"@ + ".amazonaws.com"@);
    reveal_strlit("us-west-2");
    reveal_strlit("s3.us-west-2.amazonaws.com");
    assert("s3.us-west-2.amazonaws.com"@ =~= "s3."@ + "us-west-2"@ + ".amazonaws.com"@);
    reveal_strlit("us-gov-east-1");
    reveal_strlit("s3.us-gov-east-1.amazonaws.com");
    assert("s3.us-gov-east-1.amazonaws.com"@ =~= "s3."@ + "us-gov-east-1"@ + ".amazonaws.com"@);
    reveal_strlit("us-gov-west-1");
    reveal_strlit("s3.us-gov-west-1.amazonaws.com");
    assert("s3.us-gov-west-1.amazonaws.com"@ =~= "s3."@ + "us-gov-west-1"@ + ".amazonaws.com"@);
}

/// What the standard partition selects for a name other than its two
/// aliases: the endpoint at `s3.`, the name and `.amazonaws.com`.
pub proof fn lemma_standard_select(region: Seq<char>)
    requires
        region != "aws-global"@,
        region != "s3-external-1"@,
    ensures
        standard_partition().select(region) == https_v4("s3."@ + region + ".amazonaws.com"@),
{
    let partition = standard_partition();
    let domain = ".amazonaws.com"@;
    lemma_standard_partition();
    lemma_listed_addresses();
    if region == "ap-northeast-1"@ {
        lemma_listed_entry(partition, 0);
        lemma_named_address("s3.ap-northeast-1.amazonaws.com"@, region, domain);
    }     else if region == "ap-southeast-1"@ {
        lemma_listed_entry(partition, 1);
        lemma_named_address("s3.ap-southeast-1.amazonaws.com"@, region, domain);
    }     else if region == "ap-southeast-2"@ {
        lemma_listed_entry(partition, 2);
        lemma_named_address("s3.ap-southeast-2.amazonaws.com"@, region, domain);
    }     else if region == "eu-west-1"@ {
        lemma_listed_entry(partition, 4);
        lemma_named_address("s3.eu-west-1.amazonaws.com"@, region, domain);
    }     else if region == "sa-east-1"@ {
        lemma_listed_entry(partition, 6);
        lemma_named_address("s3.sa-east-1.amazonaws.com"@, region, domain);
    }     else if region == "us-east-1"@ {
        lemma_listed_entry(partition, 7);
        lemma_named_address("s3.us-east-1.amazonaws.com"@, region, domain);
    }     else if region == "us-west-1"@ {
        lemma_listed_entry(partition, 8);
        lemma_named_address("s3.us-west-1.amazonaws.com"@, region, domain);
    }     else if region == "us-west-2"@ {
        lemma_listed_entry(partition, 9);
        lemma_named_address("s3.us-west-2.amazonaws.com"@, region, domain);
    } else {
        lemma_not_listed(partition, region);
        reveal_strlit("s3.{region}.amazonaws.com");
        reveal_strlit("s3.");
        reveal_strlit(".amazonaws.com");
        assert("s3.{region}.amazonaws.com"@ =~= "s3."@ + placeholder() + domain);
        lemma_default_address("s3.{region}.amazonaws.com"@, domain, region);
    }
}

/// What the partition `aws-cn` selects for any name: the endpoint at `s3.`,
/// the name and `.amazonaws.com.cn`.
pub proof fn lemma_china_select(region: Seq<char>)
    ensures
        china_partition().select(region) == https_v4("s3."@ + region + ".amazonaws.com.cn"@),
{
    let domain = ".amazonaws.com.cn"@;
    lemma_not_listed(china_partition(), region);
    reveal_strlit("s3.{region}.amazonaws.com.cn");
    reveal_strlit("s3.");
    reveal_strlit(".amazonaws.com.cn");
    assert("s3.{region}.amazonaws.com.cn"@ =~= "s3."@ + placeholder() + domain);
    lemma_default_address("s3.{region}.amazonaws.com.cn"@, domain, region);
}

/// What the partition `aws-iso` selects for any name: the endpoint at
/// `s3.`, the name and `.c2s.ic.gov`. It lists `us-iso-east-1` with the
/// address of its default endpoint, so that this name gets what the others
/// get.
pub proof fn lemma_iso_select(region: Seq<char>)
    ensures
        iso_partition().select(region) == https_v4("s3."@ + region + ".c2s.ic.gov"@),
{
    let partition = iso_partition();
    let domain = ".c2s.ic.gov"@;
    lemma_iso_partition();
    if region == "us-iso-east-1"@ {
        lemma_listed_entry(partition, 0);
    } else {
        lemma_not_listed(partition, region);
    }
    reveal_strlit("s3.{region}.c2s.ic.gov");
    reveal_strlit("s3.");
    reveal_strlit(".c2s.ic.gov");
    assert("s3.{region}.c2s.ic.gov"@ =~= "s3."@ + placeholder() + domain);
    lemma_default_address("s3.{region}.c2s.ic.gov"@, domain, region);
}

/// What the partition `aws-iso-b` selects for any name: the endpoint at
/// `s3.`, the name and `.sc2s.sgov.gov`.
pub proof fn lemma_iso_b_select(region: Seq<char>)
    ensures
        iso_b_partition().select(region) == https_v4("s3."@ + region + ".sc2s.sgov.gov"@),
{
    let domain = ".sc2s.sgov.gov"@;
    lemma_not_listed(iso_b_partition(), region);
    reveal_strlit("s3.{region}.sc2s.sgov.gov");
    reveal_strlit("s3.");
    reveal_strlit(".sc2s.sgov.gov");
    assert("s3.{region}.sc2s.sgov.gov"@ =~= "s3."@ + placeholder() + domain);
    lemma_default_address("s3.{region}.sc2s.sgov.gov"@, domain, region);
}

/// What the partition `aws-us-gov` selects for a name other than its
/// alias: the endpoint at `s3.`, the name and `.amazonaws.com`.
pub proof fn lemma_us_gov_select(region: Seq<char>)
    requires
        region != "fips-us-gov-west-1"@,
    ensures
        us_gov_partition().select(region) == https_v4("s3."@ + region + ".amazonaws.com"@),
{
    let partition = us_gov_partition();
    let domain = ".amazonaws.com"@;
    lemma_us_gov_partition();
    lemma_listed_addresses();
    if region == "us-gov-east-1"@ {
        lemma_listed_entry(partition, 1);
        lemma_named_address("s3.us-gov-east-1.amazonaws.com"@, region, domain);
    }     else if region == "us-gov-west-1"@ {
        lemma_listed_entry(partition, 2);
        lemma_named_address("s3.us-gov-west-1.amazonaws.com"@, region, domain);
    } else {
        lemma_not_listed(partition, region);
        reveal_strlit("s3.{region}.amazonaws.com");
        reveal_strlit("s3.");
        reveal_strlit(".amazonaws.com");
        assert("s3.{region}.amazonaws.com"@ =~= "s3."@ + placeholder() + domain);
        lemma_default_address("s3.{region}.amazonaws.com"@, domain, region);
    }
}

/// The address of every name but two: whatever is asked for, other than
/// the aliases `aws-global` and `s3-external-1`, gets the endpoint at
/// `s3.`, the name and the domain of its partition, and is signed for as
/// itself, whether the name is listed or not.
pub proof fn lemma_s3_address(region: Seq<char>)
    requires
        region != "aws-global"@,
        region != "s3-external-1"@,
    ensures
        s3_table().resolve(region) == s3_endpoint(region, s3_domain(region)),
        s3_domain(region) == s3_domain_at(s3_table().matching(region)),
{
    let table = s3_table();
    lemma_s3_matching(region);
    assert(table.partitions[0] == standard_partition());
    assert(table.partitions[1] == china_partition());
    assert(table.partitions[2] == iso_partition());
    assert(table.partitions[3] == iso_b_partition());
    assert(table.partitions[4] == us_gov_partition());
    if region_of(region, "cn"@) {
        lemma_china_select(region);
    } else if region_of(region, "us-iso"@) {
        lemma_iso_select(region);
    } else if region_of(region, "us-isob"@) {
        lemma_iso_b_select(region);
    } else if region_of(region, "us-gov"@) {
        reveal_strlit("us-gov");
        reveal_strlit("fips-us-gov-west-1");
        lemma_region_letters(region, "us-gov"@, 0);
        lemma_us_gov_select(region);
    } else {
        lemma_standard_select(region);
    }
}

/// The name `aws-global` gets the endpoint that the standard partition
/// lists under it: the address without a region, signed for as
/// `us-east-1`.
pub proof fn lemma_global_alias()
    ensures
        s3_table().resolve("aws-global"@) == (ResolvedView {
            uri: "s3.amazonaws.com"@,
            protocol: Protocol::Https,
            signature_versions: SignatureVersion::V4,
            signing_region: "us-east-1"@,
        }),
{
    reveal_strlit("aws-global");
    reveal_strlit("s3.amazonaws.com");
    lemma_other_letters_are_standard("aws-global"@);
    lemma_standard_partition();
    lemma_listed_entry(standard_partition(), 3);
    lemma_substituted_plain("s3.amazonaws.com"@, "aws-global"@);
    assert(s3_table().partitions[0] == standard_partition());
}

/// The name `s3-external-1` gets the endpoint that the standard partition
/// lists under it, and is signed for as `us-east-1`.
pub proof fn lemma_external_alias()
    ensures
        s3_table().resolve("s3-external-1"@) == (ResolvedView {
            uri: "s3-external-1.amazonaws.com"@,
            protocol: Protocol::Https,
            signature_versions: SignatureVersion::V4,
            signing_region: "us-east-1"@,
        }),
{
    reveal_strlit("s3-external-1");
    reveal_strlit("s3-external-1.amazonaws.com");
    lemma_other_letters_are_standard("s3-external-1"@);
    lemma_standard_partition();
    lemma_listed_entry(standard_partition(), 5);
    lemma_substituted_plain("s3-external-1.amazonaws.com"@, "s3-external-1"@);
    assert(s3_table().partitions[0] == standard_partition());
}

/// The region `us-iso-east-1`, which its partition lists with a placeholder
/// in the address, gets the address with its name in it.
pub proof fn lemma_us_iso_east_1()
    ensures
        s3_table().resolve("us-iso-east-1"@) == (ResolvedView {
            uri: "s3.us-iso-east-1.c2s.ic.gov"@,
            protocol: Protocol::Https,
            signature_versions: SignatureVersion::V4,
            signing_region: "us-iso-east-1"@,
        }),
{
    let region = "us-iso-east-1"@;
    reveal_strlit("us-iso-east-1");
    reveal_strlit("aws-global");
    reveal_strlit("s3-external-1");
    reveal_strlit("cn");
    reveal_strlit("us-iso");
    reveal_strlit("s3.");
    reveal_strlit(".c2s.ic.gov");
    reveal_strlit("s3.us-iso-east-1.c2s.ic.gov");
    assert(region.len() == 13 && "aws-global"@.len() == 10);
    assert(region[0] == 'u' && "s3-external-1"@[0] == 's');
    if region_of(region, "cn"@) {
        lemma_region_letters(region, "cn"@, 0);
    }
    assert(region_of(region, "us-iso"@)) by {
        assert("us-iso"@ =~= region.subrange(0, 6));
        assert(area_and_number_at(region, 6, 11));
    }
    lemma_s3_address(region);
    assert("s3."@ + region + ".c2s.ic.gov"@ =~= "s3.us-iso-east-1.c2s.ic.gov"@);
}

/// The region `us-west-2` gets the address with its name in it.
pub proof fn lemma_us_west_2()
    ensures
        s3_table().resolve("us-west-2"@) == (ResolvedView {
            uri: "s3.us-west-2.amazonaws.com"@,
            protocol: Protocol::Https,
            signature_versions: SignatureVersion::V4,
            signing_region: "us-west-2"@,
        }),
{
    let region = "us-west-2"@;
    reveal_strlit("us-west-2");
    reveal_strlit("aws-global");
    reveal_strlit("s3-external-1");
    reveal_strlit("us-iso");
    reveal_strlit("us-isob");
    reveal_strlit("cn");
    assert(region.len() == 9 && "aws-global"@.len() == 10 && "s3-external-1"@.len() == 13);
    if region_of(region, "cn"@) {
        lemma_region_letters(region, "cn"@, 0);
    }
    if region_of(region, "us-iso"@) {
        lemma_region_letters(region, "us-iso"@, 3);
    }
    if region_of(region, "us-isob"@) {
        lemma_region_letters(region, "us-isob"@, 3);
    }
    lemma_s3_address(region);
    lemma_listed_addresses();
}

/// The name `xx-test-1`, which no pattern accepts and no partition lists,
/// gets the standard address with its name in it.
pub proof fn lemma_unlisted_geography()
    ensures
        s3_table().matching("xx-test-1"@) == 0,
        s3_table().resolve("xx-test-1"@) == (ResolvedView {
            uri: "s3.xx-test-1.amazonaws.com"@,
            protocol: Protocol::Https,
            signature_versions: SignatureVersion::V4,
            signing_region: "xx-test-1"@,
        }),
{
    let region = "xx-test-1"@;
    reveal_strlit("xx-test-1");
    reveal_strlit("aws-global");
    reveal_strlit("s3-external-1");
    reveal_strlit("us-iso");
    reveal_strlit("us-isob");
    reveal_strlit("cn");
    reveal_strlit("s3.");
    reveal_strlit(".amazonaws.com");
    reveal_strlit("s3.xx-test-1.amazonaws.com");
    assert(region.len() == 9 && "aws-global"@.len() == 10 && "s3-external-1"@.len() == 13);
    lemma_other_letters_are_standard(region);
    if region_of(region, "cn"@) {
        lemma_region_letters(region, "cn"@, 0);
    }
    if region_of(region, "us-iso"@) {
        lemma_region_letters(region, "us-iso"@, 0);
    }
    if region_of(region, "us-isob"@) {
        lemma_region_letters(region, "us-isob"@, 0);
    }
    lemma_s3_address(region);
    assert("s3."@ + region + ".amazonaws.com"@ =~= "s3.xx-test-1.amazonaws.com"@);
}

} // verus!
